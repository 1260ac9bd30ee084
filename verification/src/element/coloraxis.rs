//! The slider of one axis.

use crate::coord::{Axis, Coord};
use crate::element::ColorElement;
use crate::embed::{AxisRepresentation, Embedding};
use crate::input::InputState;
use vstd::prelude::*;

verus! {

/// A slider that owns one component of the logical coordinate.
///
/// While the cursor is on the slider its anchor `pos` is frozen: it no longer
/// follows the state, so that a drag along the slider is measured against the
/// coordinate the drag started from. Once the cursor has left, the anchor
/// follows the state again.
#[derive(Debug, Clone, Copy, PartialEq)]
pub struct ColorAxis<S> {
    /// The component this slider owns.
    pub axis: Axis,
    /// The anchor: the coordinate whose other two components a hit keeps.
    pub pos: Coord<S>,
    /// The image of the state's coordinate under the colour embedding.
    pub color: Coord<S>,
    /// The image of the state's coordinate under the space embedding.
    pub space: Coord<S>,
    /// Whether the cursor is on the slider.
    pub hover: bool,
    /// How the space embedding wants its turn axis pictured.
    pub representation: AxisRepresentation,
}

impl<S: Copy> ColorAxis<S> {
    /// An idle slider for `axis`. Until the first update its anchor and its
    /// cached images are `origin`.
    pub fn new(axis: Axis, origin: Coord<S>) -> (r: Self)
        ensures
            r == (ColorAxis {
                axis,
                pos: origin,
                color: origin,
                space: origin,
                hover: false,
                representation: AxisRepresentation::Cylindrical,
            }),
    {
        ColorAxis {
            axis,
            pos: origin,
            color: origin,
            space: origin,
            hover: false,
            representation: AxisRepresentation::Cylindrical,
        }
    }

    /// The logical coordinate shown at `value` along the slider's strip while
    /// the state is at `pos`: `pos` with the owned component set to `value`.
    pub fn sample(&self, pos: Coord<S>, value: S) -> (r: Coord<S>)
        ensures
            r == pos.spec_with(self.axis, value),
    {
        pos.with(self.axis, value)
    }
}

impl<S: Copy, E: Embedding<Coord<S>> + ?Sized> ColorElement<S, E> for ColorAxis<S> {
    open spec fn wf(&self) -> bool {
        true
    }

    open spec fn update_spec(self, state: InputState<S, E>) -> Self {
        ColorAxis {
            axis: self.axis,
            pos: if self.hover {
                self.pos
            } else {
                state.pos
            },
            color: state.color_embedding.embedding.embed_spec(state.pos),
            space: state.space_embedding.embedding.embed_spec(state.pos),
            hover: self.hover,
            representation: state.space_embedding.embedding.axis(),
        }
    }

    open spec fn entered_spec(self) -> Self {
        ColorAxis { hover: true, ..self }
    }

    open spec fn exited_spec(self) -> Self {
        ColorAxis { hover: false, ..self }
    }

    open spec fn clicked_spec(self) -> Self {
        self
    }

    open spec fn update_state_spec(&self, state: InputState<S, E>) -> InputState<S, E> {
        InputState {
            chunk: state.chunk.spec_with(self.axis, state.pos.spec_get(self.axis)),
            ..state
        }
    }

    open spec fn invert_space_spec(&self, pos: Coord<S>) -> Option<Coord<S>> {
        Some(self.pos.spec_with(self.axis, pos.spec_get(self.axis)))
    }

    fn update(&mut self, state: &InputState<S, E>) {
        if !self.hover {
            self.pos = state.pos;
        }
        self.color = state.color_embedding.embedding.embed(state.pos);
        self.space = state.space_embedding.embedding.embed(state.pos);
        self.representation = state.space_embedding.embedding.axis_representation();
    }

    fn entered(&mut self) {
        self.hover = true;
    }

    fn exited(&mut self) {
        self.hover = false;
    }

    fn clicked(&mut self) {
    }

    /// Writes the owned component of the state's coordinate into the same
    /// slot of the state's chunk.
    fn update_state(&self, state: &mut InputState<S, E>) {
        state.chunk = state.chunk.with(self.axis, state.pos.get(self.axis));
    }

    /// The anchor with the owned component taken from the hit.
    fn invert_space(&self, pos: Coord<S>) -> (r: Option<Coord<S>>) {
        Some(self.pos.with(self.axis, pos.get(self.axis)))
    }
}

/// The anchor of a slider follows the state while the slider is idle and
/// stays where it is while the cursor is on the slider: an update after
/// `entered` keeps the anchor, an update after `exited` takes the state's
/// coordinate again.
pub proof fn anchor_frozen_while_hovered<S: Copy, E: Embedding<Coord<S>> + ?Sized>(
    slider: ColorAxis<S>,
    state: InputState<S, E>,
)
    ensures
        ColorElement::<S, E>::entered_spec(slider).hover,
        !ColorElement::<S, E>::exited_spec(slider).hover,
        ColorElement::<S, E>::entered_spec(slider).update_spec(state).pos == slider.pos,
        ColorElement::<S, E>::exited_spec(slider).update_spec(state).pos == state.pos,
        slider.update_spec(state).hover == slider.hover,
{
}

} // verus!
