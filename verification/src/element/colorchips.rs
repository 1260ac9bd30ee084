//! The palette: a row of chips derived from the committed coordinate.

use crate::coord::Coord;
use crate::element::ColorElement;
use crate::input::InputState;
use vstd::prelude::*;

verus! {

/// A row of `count` colour chips.
///
/// Chips can be hovered but not edited: no hit on a chip stands for a
/// coordinate.
#[derive(Debug, Clone, Copy, PartialEq)]
pub struct ColorChips<S> {
    /// The coordinate the row starts from: the committed coordinate of the
    /// state, as of the last update.
    pub origin: Coord<S>,
    /// How many chips the row has.
    pub count: usize,
    /// Whether the cursor is on a chip.
    pub hover: bool,
}

impl<S: Copy> ColorChips<S> {
    /// An idle row of `count` chips that starts from `origin`.
    pub fn new(count: usize, origin: Coord<S>) -> (r: Self)
        ensures
            r == (ColorChips { origin, count, hover: false }),
    {
        ColorChips { origin, count, hover: false }
    }
}

impl<S: Copy, E: ?Sized> ColorElement<S, E> for ColorChips<S> {
    open spec fn wf(&self) -> bool {
        true
    }

    open spec fn update_spec(self, state: InputState<S, E>) -> Self {
        ColorChips { origin: state.saved_pos, ..self }
    }

    open spec fn entered_spec(self) -> Self {
        ColorChips { hover: true, ..self }
    }

    open spec fn exited_spec(self) -> Self {
        ColorChips { hover: false, ..self }
    }

    open spec fn clicked_spec(self) -> Self {
        self
    }

    open spec fn update_state_spec(&self, state: InputState<S, E>) -> InputState<S, E> {
        state
    }

    open spec fn invert_space_spec(&self, pos: Coord<S>) -> Option<Coord<S>> {
        None
    }

    fn update(&mut self, state: &InputState<S, E>) {
        self.origin = state.saved_pos;
    }

    fn entered(&mut self) {
        self.hover = true;
    }

    fn exited(&mut self) {
        self.hover = false;
    }

    fn clicked(&mut self) {
    }

    fn update_state(&self, state: &mut InputState<S, E>) {
    }

    fn invert_space(&self, pos: Coord<S>) -> (r: Option<Coord<S>>) {
        None
    }
}

} // verus!
