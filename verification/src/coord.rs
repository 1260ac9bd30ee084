//! Logical coordinates: three components of an arbitrary scalar type.
//!
//! Nothing here computes with scalars. Components are only copied, selected and
//! permuted, so every statement holds for any scalar type whatsoever.

use vstd::prelude::*;

verus! {

/// One of the three components of a coordinate.
#[derive(Debug, Clone, Copy, PartialEq, Eq, Structural)]
pub enum Axis {
    X,
    Y,
    Z,
}

impl Axis {
    /// Position of the component when a coordinate is read as a sequence.
    pub open spec fn spec_index(self) -> int {
        match self {
            Axis::X => 0,
            Axis::Y => 1,
            Axis::Z => 2,
        }
    }

    /// Position of the component: 0 for `X`, 1 for `Y`, 2 for `Z`.
    pub fn index(self) -> (r: usize)
        ensures
            r == self.spec_index(),
    {
        match self {
            Axis::X => 0,
            Axis::Y => 1,
            Axis::Z => 2,
        }
    }
}

/// A coordinate with components `x`, `y` and `z`.
#[derive(Debug, Clone, Copy, PartialEq)]
pub struct Coord<S> {
    pub x: S,
    pub y: S,
    pub z: S,
}

impl<S> View for Coord<S> {
    type V = Seq<S>;

    /// The components in the order `x`, `y`, `z`.
    open spec fn view(&self) -> Seq<S> {
        seq![self.x, self.y, self.z]
    }
}

impl<S> Coord<S> {
    /// The component on `axis`.
    pub open spec fn spec_get(self, axis: Axis) -> S {
        match axis {
            Axis::X => self.x,
            Axis::Y => self.y,
            Axis::Z => self.z,
        }
    }

    /// The coordinate with the component on `axis` replaced by `value`.
    pub open spec fn spec_with(self, axis: Axis, value: S) -> Self {
        match axis {
            Axis::X => Coord { x: value, y: self.y, z: self.z },
            Axis::Y => Coord { x: self.x, y: value, z: self.z },
            Axis::Z => Coord { x: self.x, y: self.y, z: value },
        }
    }

    /// The coordinate with the components on `a1` and `a2` exchanged.
    pub open spec fn spec_swap(self, a1: Axis, a2: Axis) -> Self {
        self.spec_with(a1, self.spec_get(a2)).spec_with(a2, self.spec_get(a1))
    }

    /// Replacing a component is updating the view at that position.
    pub proof fn lemma_with_is_update(self, axis: Axis, value: S)
        ensures
            self.spec_with(axis, value)@ == self@.update(axis.spec_index(), value),
    {
        assert(self.spec_with(axis, value)@ =~= self@.update(axis.spec_index(), value));
    }

    /// Exchanging two components is the transposition of two positions of the view.
    pub proof fn lemma_swap_is_transposition(self, a1: Axis, a2: Axis)
        ensures
            self.spec_swap(a1, a2)@ == self@.update(
                a1.spec_index(),
                self@[a2.spec_index()],
            ).update(a2.spec_index(), self@[a1.spec_index()]),
    {
        assert(self.spec_swap(a1, a2)@ =~= self@.update(
            a1.spec_index(),
            self@[a2.spec_index()],
        ).update(a2.spec_index(), self@[a1.spec_index()]));
    }

    /// Exchanging the same two components twice gives the coordinate back,
    /// in whichever order the axes are named.
    pub proof fn lemma_swap_twice(self, a1: Axis, a2: Axis)
        ensures
            self.spec_swap(a1, a2).spec_swap(a1, a2) == self,
            self.spec_swap(a1, a2).spec_swap(a2, a1) == self,
            self.spec_swap(a1, a2) == self.spec_swap(a2, a1),
    {
    }
}

impl<S: Copy> Coord<S> {
    pub fn new(x: S, y: S, z: S) -> (r: Self)
        ensures
            r == (Coord { x, y, z }),
    {
        Coord { x, y, z }
    }

    /// The component on `axis`.
    pub fn get(&self, axis: Axis) -> (r: S)
        ensures
            r == self.spec_get(axis),
            r == self@[axis.spec_index()],
    {
        match axis {
            Axis::X => self.x,
            Axis::Y => self.y,
            Axis::Z => self.z,
        }
    }

    /// The coordinate with the component on `axis` replaced by `value`;
    /// the other two components are kept.
    pub fn with(self, axis: Axis, value: S) -> (r: Self)
        ensures
            r == self.spec_with(axis, value),
            r@ == self@.update(axis.spec_index(), value),
    {
        proof {
            self.lemma_with_is_update(axis, value);
        }
        match axis {
            Axis::X => Coord { x: value, y: self.y, z: self.z },
            Axis::Y => Coord { x: self.x, y: value, z: self.z },
            Axis::Z => Coord { x: self.x, y: self.y, z: value },
        }
    }

    /// This coordinate and `other` combined by `f`, component by component.
    pub fn zip<F: Fn(S, S) -> S>(self, other: Coord<S>, f: F) -> (r: Self)
        requires
            forall|a: S, b: S| call_requires(f, (a, b)),
        ensures
            zipped(f, self, other, r),
    {
        let x = f(self.x, other.x);
        let y = f(self.y, other.y);
        let z = f(self.z, other.z);
        Coord { x, y, z }
    }

    /// The coordinate with the components on `a1` and `a2` exchanged: the
    /// transposition of the two places of the view.
    pub fn swap(self, a1: Axis, a2: Axis) -> (r: Self)
        ensures
            r == self.spec_swap(a1, a2),
            r@ == self@.update(a1.spec_index(), self@[a2.spec_index()]).update(
                a2.spec_index(),
                self@[a1.spec_index()],
            ),
    {
        proof {
            self.lemma_swap_is_transposition(a1, a2);
        }
        let first = self.get(a1);
        let second = self.get(a2);
        self.with(a1, second).with(a2, first)
    }
}

/// Whether `r` is what `f` can make of `a` and `b` component by component:
/// each component of `r` of the same component of `a` and of `b`.
pub open spec fn zipped<S, F: Fn(S, S) -> S>(f: F, a: Coord<S>, b: Coord<S>, r: Coord<S>) -> bool {
    &&& call_ensures(f, (a.x, b.x), r.x)
    &&& call_ensures(f, (a.y, b.y), r.y)
    &&& call_ensures(f, (a.z, b.z), r.z)
}

} // verus!
