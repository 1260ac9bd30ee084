//! What rendering needs to agree on with the rest of the library.

use vstd::prelude::*;

verus! {

/// Something that can say how it is drawn in a given state: `T` is the state
/// it is asked about and `M` the model it answers with.
pub trait Renderable<'a, T, M> {
    fn model(&'a self, state: &T) -> M;
}

/// The two ways of laying out the coordinate cube in the scene.
#[derive(Debug, Clone, Copy, PartialEq, Eq, Structural)]
pub enum Space {
    Linear,
    Cylindrical,
}

} // verus!
