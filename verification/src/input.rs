//! The interaction state: the one record that the engine and every element
//! read and write.

use crate::coord::Coord;
use crate::embed::SharedEmbedding;
use vstd::prelude::*;

verus! {

/// What the pointer did since the frame before, as far as the state keeps
/// track of it.
#[derive(Debug, Clone, Copy, PartialEq)]
pub enum PointerEvent<S> {
    /// The pointer moved to `(x, y)`.
    Motion { x: S, y: S },
    /// A button went down at `(x, y)`; `left` says whether it was the left
    /// one.
    Press { left: bool, x: S, y: S },
}

/// The shared state of a session.
///
/// `S` is the scalar type of coordinates and `E` the type behind which the
/// active embeddings are held.
pub struct InputState<S, E: ?Sized> {
    /// Where the cursor is, in viewport pixels.
    pub mouse_pos: (S, S),
    /// The image of `pos` under the colour embedding, as last resolved.
    pub color: Coord<S>,
    /// The current logical coordinate.
    pub pos: Coord<S>,
    /// The last committed coordinate; set by a click.
    pub saved_pos: Coord<S>,
    /// The extent of the visible sub-region, one value per axis.
    pub chunk: Coord<S>,
    /// Whether the button went down in this frame.
    pub press: bool,
    /// Whether any input has arrived yet.
    pub input: bool,
    /// The embedding that gives a coordinate its colour.
    pub color_embedding: SharedEmbedding<E>,
    /// The embedding that gives a coordinate its place in the scene.
    pub space_embedding: SharedEmbedding<E>,
}

impl<S: Copy, E: ?Sized> InputState<S, E> {
    /// The state at the start of a session: `pos` is both the current and the
    /// committed coordinate, no button is down and no input has arrived.
    pub fn new(
        pos: Coord<S>,
        chunk: Coord<S>,
        color: Coord<S>,
        mouse_pos: (S, S),
        color_embedding: SharedEmbedding<E>,
        space_embedding: SharedEmbedding<E>,
    ) -> (r: Self)
        ensures
            r == (InputState {
                mouse_pos,
                color,
                pos,
                saved_pos: pos,
                chunk,
                press: false,
                input: false,
                color_embedding,
                space_embedding,
            }),
    {
        InputState {
            mouse_pos,
            color,
            pos,
            saved_pos: pos,
            chunk,
            press: false,
            input: false,
            color_embedding,
            space_embedding,
        }
    }

    /// The state after one event: the pointer is where the event says, and a
    /// button that went down is a press if it was the left one.
    pub open spec fn after_event(self, event: PointerEvent<S>) -> Self {
        match event {
            PointerEvent::Motion { x, y } => InputState { mouse_pos: (x, y), ..self },
            PointerEvent::Press { left, x, y } => InputState {
                mouse_pos: (x, y),
                press: left,
                ..self
            },
        }
    }

    /// The state after a list of events, taken in order.
    pub open spec fn after_events(self, events: Seq<PointerEvent<S>>) -> Self
        decreases events.len(),
    {
        if events.len() == 0 {
            self
        } else {
            self.after_events(events.drop_last()).after_event(events.last())
        }
    }

    /// Starts a frame with the events that arrived since the frame before.
    ///
    /// No button has gone down yet; then the events are taken in order.
    /// Afterwards input has arrived, whether or not there was an event.
    pub fn begin_frame(&mut self, events: &Vec<PointerEvent<S>>)
        ensures
            *final(self) == (InputState { press: false, input: true, ..*old(self) }).after_events(
                events@,
            ),
    {
        self.press = false;
        self.input = true;
        let ghost start = *self;
        let len: usize = events.len();
        let mut i: usize = 0;
        assert(events@.take(0) =~= Seq::<PointerEvent<S>>::empty());
        while i < len
            invariant
                i <= len,
                len == events@.len(),
                *self == start.after_events(events@.take(i as int)),
            decreases len - i,
        {
            proof {
                assert(events@.take(i + 1).drop_last() =~= events@.take(i as int));
                assert(events@.take(i + 1).last() == events@[i as int]);
            }
            match events[i] {
                PointerEvent::Motion { x, y } => {
                    self.mouse_pos = (x, y);
                },
                PointerEvent::Press { left, x, y } => {
                    self.mouse_pos = (x, y);
                    self.press = left;
                },
            }
            i += 1;
        }
        assert(events@.take(len as int) =~= events@);
    }
}

} // verus!
