//! Scene elements: what the engine asks of anything that can be hovered,
//! clicked and picked.

use crate::coord::Coord;
use crate::element::coloraxis::ColorAxis;
use crate::element::colorchips::ColorChips;
use crate::element::colorspace::ColorSpace;
use crate::element::embedswitcher::EmbedSwitcher;
use crate::embed::Embedding;
use crate::input::InputState;
use vstd::prelude::*;

pub mod coloraxis;
pub mod colorchips;
pub mod colorspace;
pub mod embedswitcher;

verus! {

/// What an element draws in one frame.
///
/// A `Color` leaf goes to the visible target, a `Space` leaf to the pick
/// target under the tag of the element that owns it, and a `Vec` is drawn
/// part by part, in order.
#[derive(Debug)]
pub enum ModelGraph<M> {
    Color(M),
    Space(M),
    Vec(Vec<ModelGraph<M>>),
}

/// A model on its way to the pick target, with the tag of its owner.
#[derive(Debug, Clone, Copy, PartialEq)]
pub struct TaggedColorModel<M> {
    pub model: M,
    pub tag: u16,
}

/// An interactive element of a scene.
///
/// Every method is a function of the element and its arguments: the `_spec`
/// function beside it says which. `wf` is the element's own invariant; the
/// engine keeps it for every element it holds. An implementation that is
/// compiled without being verified has to provide the spec functions as
/// ordinary functions, and gives each the body of the method it stands for.
pub trait ColorElement<S, E: ?Sized>: Sized {
    /// The element's invariant.
    spec fn wf(&self) -> bool;

    /// The element after it has refreshed what it caches from `state`.
    spec fn update_spec(self, state: InputState<S, E>) -> Self;

    /// The element after the cursor has come onto it.
    spec fn entered_spec(self) -> Self;

    /// The element after the cursor has left it.
    spec fn exited_spec(self) -> Self;

    /// The element after a click on it.
    spec fn clicked_spec(self) -> Self;

    /// The state after the element, owning the hit, has had its say.
    spec fn update_state_spec(&self, state: InputState<S, E>) -> InputState<S, E>;

    /// The logical coordinate that a hit at `pos` stands for, if any.
    spec fn invert_space_spec(&self, pos: Coord<S>) -> Option<Coord<S>>;

    /// Refreshes what the element caches from the state.
    fn update(&mut self, state: &InputState<S, E>)
        requires
            old(self).wf(),
        ensures
            final(self).wf(),
            *final(self) == old(self).update_spec(*state),
    ;

    /// The cursor has come onto the element.
    fn entered(&mut self)
        requires
            old(self).wf(),
        ensures
            final(self).wf(),
            *final(self) == old(self).entered_spec(),
    ;

    /// The cursor has left the element.
    fn exited(&mut self)
        requires
            old(self).wf(),
        ensures
            final(self).wf(),
            *final(self) == old(self).exited_spec(),
    ;

    /// The button went down while the cursor was on the element.
    fn clicked(&mut self)
        requires
            old(self).wf(),
        ensures
            final(self).wf(),
            *final(self) == old(self).clicked_spec(),
    ;

    /// Lets the element that owns the hit adjust the shared state.
    fn update_state(&self, state: &mut InputState<S, E>)
        requires
            self.wf(),
        ensures
            *final(state) == self.update_state_spec(*old(state)),
    ;

    /// Maps a hit in the element's own space back to a logical coordinate,
    /// or to `None` where the element offers nothing to manipulate.
    fn invert_space(&self, pos: Coord<S>) -> (r: Option<Coord<S>>)
        requires
            self.wf(),
        ensures
            r == self.invert_space_spec(pos),
    ;
}

/// Any one of the elements this library provides, so that a scene can hold
/// them in one list.
pub enum SceneElement<S, E: ?Sized> {
    Space(ColorSpace<S>),
    Axis(ColorAxis<S>),
    Chips(ColorChips<S>),
    Switcher(EmbedSwitcher<E>),
}

impl<S: Copy, E: Embedding<Coord<S>> + ?Sized> ColorElement<S, E> for SceneElement<S, E> {
    open spec fn wf(&self) -> bool {
        match self {
            SceneElement::Space(e) => ColorElement::<S, E>::wf(e),
            SceneElement::Axis(e) => ColorElement::<S, E>::wf(e),
            SceneElement::Chips(e) => ColorElement::<S, E>::wf(e),
            SceneElement::Switcher(e) => ColorElement::<S, E>::wf(e),
        }
    }

    open spec fn update_spec(self, state: InputState<S, E>) -> Self {
        match self {
            SceneElement::Space(e) => SceneElement::Space(e.update_spec(state)),
            SceneElement::Axis(e) => SceneElement::Axis(e.update_spec(state)),
            SceneElement::Chips(e) => SceneElement::Chips(e.update_spec(state)),
            SceneElement::Switcher(e) => SceneElement::Switcher(e.update_spec(state)),
        }
    }

    open spec fn entered_spec(self) -> Self {
        match self {
            SceneElement::Space(e) => SceneElement::Space(ColorElement::<S, E>::entered_spec(e)),
            SceneElement::Axis(e) => SceneElement::Axis(ColorElement::<S, E>::entered_spec(e)),
            SceneElement::Chips(e) => SceneElement::Chips(ColorElement::<S, E>::entered_spec(e)),
            SceneElement::Switcher(e) => SceneElement::Switcher(
                ColorElement::<S, E>::entered_spec(e),
            ),
        }
    }

    open spec fn exited_spec(self) -> Self {
        match self {
            SceneElement::Space(e) => SceneElement::Space(ColorElement::<S, E>::exited_spec(e)),
            SceneElement::Axis(e) => SceneElement::Axis(ColorElement::<S, E>::exited_spec(e)),
            SceneElement::Chips(e) => SceneElement::Chips(ColorElement::<S, E>::exited_spec(e)),
            SceneElement::Switcher(e) => SceneElement::Switcher(
                ColorElement::<S, E>::exited_spec(e),
            ),
        }
    }

    open spec fn clicked_spec(self) -> Self {
        match self {
            SceneElement::Space(e) => SceneElement::Space(ColorElement::<S, E>::clicked_spec(e)),
            SceneElement::Axis(e) => SceneElement::Axis(ColorElement::<S, E>::clicked_spec(e)),
            SceneElement::Chips(e) => SceneElement::Chips(ColorElement::<S, E>::clicked_spec(e)),
            SceneElement::Switcher(e) => SceneElement::Switcher(
                ColorElement::<S, E>::clicked_spec(e),
            ),
        }
    }

    open spec fn update_state_spec(&self, state: InputState<S, E>) -> InputState<S, E> {
        match self {
            SceneElement::Space(e) => e.update_state_spec(state),
            SceneElement::Axis(e) => e.update_state_spec(state),
            SceneElement::Chips(e) => e.update_state_spec(state),
            SceneElement::Switcher(e) => e.update_state_spec(state),
        }
    }

    open spec fn invert_space_spec(&self, pos: Coord<S>) -> Option<Coord<S>> {
        match self {
            SceneElement::Space(e) => ColorElement::<S, E>::invert_space_spec(e, pos),
            SceneElement::Axis(e) => ColorElement::<S, E>::invert_space_spec(e, pos),
            SceneElement::Chips(e) => ColorElement::<S, E>::invert_space_spec(e, pos),
            SceneElement::Switcher(e) => ColorElement::<S, E>::invert_space_spec(e, pos),
        }
    }

    fn update(&mut self, state: &InputState<S, E>) {
        match self {
            SceneElement::Space(e) => e.update(state),
            SceneElement::Axis(e) => e.update(state),
            SceneElement::Chips(e) => e.update(state),
            SceneElement::Switcher(e) => e.update(state),
        }
    }

    fn entered(&mut self) {
        match self {
            SceneElement::Space(e) => ColorElement::<S, E>::entered(e),
            SceneElement::Axis(e) => ColorElement::<S, E>::entered(e),
            SceneElement::Chips(e) => ColorElement::<S, E>::entered(e),
            SceneElement::Switcher(e) => ColorElement::<S, E>::entered(e),
        }
    }

    fn exited(&mut self) {
        match self {
            SceneElement::Space(e) => ColorElement::<S, E>::exited(e),
            SceneElement::Axis(e) => ColorElement::<S, E>::exited(e),
            SceneElement::Chips(e) => ColorElement::<S, E>::exited(e),
            SceneElement::Switcher(e) => ColorElement::<S, E>::exited(e),
        }
    }

    fn clicked(&mut self) {
        match self {
            SceneElement::Space(e) => ColorElement::<S, E>::clicked(e),
            SceneElement::Axis(e) => ColorElement::<S, E>::clicked(e),
            SceneElement::Chips(e) => ColorElement::<S, E>::clicked(e),
            SceneElement::Switcher(e) => ColorElement::<S, E>::clicked(e),
        }
    }

    fn update_state(&self, state: &mut InputState<S, E>) {
        match self {
            SceneElement::Space(e) => e.update_state(state),
            SceneElement::Axis(e) => e.update_state(state),
            SceneElement::Chips(e) => e.update_state(state),
            SceneElement::Switcher(e) => e.update_state(state),
        }
    }

    fn invert_space(&self, pos: Coord<S>) -> (r: Option<Coord<S>>) {
        match self {
            SceneElement::Space(e) => ColorElement::<S, E>::invert_space(e, pos),
            SceneElement::Axis(e) => ColorElement::<S, E>::invert_space(e, pos),
            SceneElement::Chips(e) => ColorElement::<S, E>::invert_space(e, pos),
            SceneElement::Switcher(e) => ColorElement::<S, E>::invert_space(e, pos),
        }
    }
}

} // verus!
