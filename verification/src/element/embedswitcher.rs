//! The button that steps through a list of embeddings.

use crate::coord::Coord;
use crate::element::ColorElement;
use crate::embed::SharedEmbedding;
use crate::input::InputState;
use vstd::prelude::*;

verus! {

/// A button that selects one of a list of embeddings and, while it owns the
/// hit, makes the selected one the active colour or space embedding.
pub struct EmbedSwitcher<E: ?Sized> {
    /// The embeddings to step through; never empty.
    pub embeddings: Vec<SharedEmbedding<E>>,
    /// The selected embedding's place in the list.
    pub index: usize,
    /// Whether the button switches the colour embedding (or else the space
    /// embedding).
    pub color: bool,
}

impl<E: ?Sized> EmbedSwitcher<E> {
    /// The selected embedding.
    pub open spec fn selected(&self) -> SharedEmbedding<E> {
        self.embeddings@[self.index as int]
    }

    /// The place in the list that a click moves the selection to.
    pub open spec fn next_index(&self) -> int {
        (self.index + 1) % (self.embeddings@.len() as int)
    }

    /// A button over `embeddings` with the first of them selected.
    pub fn new(embeddings: Vec<SharedEmbedding<E>>, switch_color: bool) -> (r: Self)
        requires
            embeddings@.len() > 0,
        ensures
            r.embeddings == embeddings,
            r.index == 0,
            r.color == switch_color,
    {
        EmbedSwitcher { embeddings, index: 0, color: switch_color }
    }
}

impl<S, E: ?Sized> ColorElement<S, E> for EmbedSwitcher<E> {
    open spec fn wf(&self) -> bool {
        self.index < self.embeddings@.len()
    }

    open spec fn update_spec(self, state: InputState<S, E>) -> Self {
        self
    }

    open spec fn entered_spec(self) -> Self {
        self
    }

    open spec fn exited_spec(self) -> Self {
        self
    }

    open spec fn clicked_spec(self) -> Self {
        EmbedSwitcher { index: self.next_index() as usize, ..self }
    }

    open spec fn update_state_spec(&self, state: InputState<S, E>) -> InputState<S, E> {
        if self.color {
            if state.color_embedding.id != self.selected().id {
                InputState { color_embedding: self.selected(), ..state }
            } else {
                state
            }
        } else {
            if state.space_embedding.id != self.selected().id {
                InputState { space_embedding: self.selected(), ..state }
            } else {
                state
            }
        }
    }

    open spec fn invert_space_spec(&self, pos: Coord<S>) -> Option<Coord<S>> {
        None
    }

    fn update(&mut self, state: &InputState<S, E>) {
    }

    fn entered(&mut self) {
    }

    fn exited(&mut self) {
    }

    /// Moves the selection one place on, and from the last place to the first.
    fn clicked(&mut self) {
        let len = self.embeddings.len();
        self.index = (self.index + 1) % len;
    }

    /// Where the active embedding is not the selected one, replaces it.
    fn update_state(&self, state: &mut InputState<S, E>) {
        let selected = &self.embeddings[self.index];
        if self.color {
            if !state.color_embedding.same(selected) {
                state.color_embedding = selected.share();
            }
        } else {
            if !state.space_embedding.same(selected) {
                state.space_embedding = selected.share();
            }
        }
    }

    fn invert_space(&self, pos: Coord<S>) -> (r: Option<Coord<S>>) {
        None
    }
}

/// A click moves the selection to the next place of the list and from the
/// last place to the first, so as many clicks as the list is long bring it
/// back to where it was.
pub proof fn clicks_cycle<S, E: ?Sized>(switcher: EmbedSwitcher<E>)
    requires
        switcher.index < switcher.embeddings@.len(),
    ensures
        ColorElement::<S, E>::clicked_spec(switcher).embeddings == switcher.embeddings,
        ColorElement::<S, E>::clicked_spec(switcher).color == switcher.color,
        switcher.index + 1 < switcher.embeddings@.len() ==> ColorElement::<S, E>::clicked_spec(
            switcher,
        ).index == switcher.index + 1,
        switcher.index + 1 == switcher.embeddings@.len() ==> ColorElement::<S, E>::clicked_spec(
            switcher,
        ).index == 0,
{
    let len = switcher.embeddings@.len();
    assert(len == switcher.embeddings.len());
    if switcher.index + 1 < len {
        vstd::arithmetic::div_mod::lemma_small_mod((switcher.index + 1) as nat, len);
        assert(switcher.next_index() == switcher.index + 1);
    } else {
        vstd::arithmetic::div_mod::lemma_mod_self_0(len as int);
    }
}

} // verus!
