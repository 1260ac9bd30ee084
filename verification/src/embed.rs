//! Embeddings: two-way transforms between the logical coordinate cube and the
//! representation in which it is drawn.
//!
//! An embedding is pure: what `embed` and `invert` return is a function of the
//! embedding and the point alone. The trait says so through `embed_spec` and
//! `invert_spec`, and everything stated of a composition or of the engine that
//! calls an embedding is stated over those two functions.

use crate::coord::{Axis, Coord};
use std::marker::PhantomData;
use std::rc::Rc;
use vstd::prelude::*;

verus! {

/// How a slider should picture the turn axis of an embedding.
#[derive(Debug, Clone, Copy, PartialEq, Eq, Structural)]
pub enum AxisRepresentation {
    Cylindrical,
    Linear,
}

/// How the extent of a sub-region is applied to geometry: as a scale of the
/// whole model, or as a component-wise clamp of each vertex before it is
/// embedded.
#[derive(Debug, Clone, Copy, PartialEq, Eq, Structural)]
pub enum ChunkRepresentation {
    Scale,
    Clamp,
}

/// An embedding that needs no data of its own. Every such embedding is an
/// [`Embedding`].
pub trait StaticEmbedding<T> {
    /// The image of `pos`.
    spec fn static_embed_spec(pos: T) -> T;

    /// The best-effort preimage of `pos`.
    spec fn static_invert_spec(pos: T) -> T;

    /// The axis representation this embedding declares.
    spec fn static_axis() -> AxisRepresentation;

    /// The chunk representation this embedding declares.
    spec fn static_chunk() -> ChunkRepresentation;

    fn static_embed(pos: T) -> (r: T)
        ensures
            r == Self::static_embed_spec(pos),
    ;

    fn static_invert(pos: T) -> (r: T)
        ensures
            r == Self::static_invert_spec(pos),
    ;

    fn axis_representation() -> (r: AxisRepresentation)
        ensures
            r == Self::static_axis(),
    ;

    fn chunk_representation() -> (r: ChunkRepresentation)
        ensures
            r == Self::static_chunk(),
    ;
}

/// A two-way transform of points of type `T`.
///
/// `embed` and `invert` accept every point. `invert` undoes `embed` as well
/// as the embedding can; where it cannot, it still answers.
///
/// The four spec functions are the model of the four methods. An
/// implementation that is compiled without being verified has to provide
/// them as ordinary functions, and gives each the body of the method it
/// stands for.
pub trait Embedding<T> {
    /// The image of `pos`.
    spec fn embed_spec(&self, pos: T) -> T;

    /// The best-effort preimage of `pos`.
    spec fn invert_spec(&self, pos: T) -> T;

    /// The axis representation this embedding declares.
    spec fn axis(&self) -> AxisRepresentation;

    /// The chunk representation this embedding declares.
    spec fn chunk(&self) -> ChunkRepresentation;

    fn embed(&self, pos: T) -> (r: T)
        ensures
            r == self.embed_spec(pos),
    ;

    fn invert(&self, pos: T) -> (r: T)
        ensures
            r == self.invert_spec(pos),
    ;

    fn axis_representation(&self) -> (r: AxisRepresentation)
        ensures
            r == self.axis(),
    ;

    fn chunk_representation(&self) -> (r: ChunkRepresentation)
        ensures
            r == self.chunk(),
    ;
}

impl<T, U: StaticEmbedding<T>> Embedding<T> for U {
    open spec fn embed_spec(&self, pos: T) -> T {
        Self::static_embed_spec(pos)
    }

    open spec fn invert_spec(&self, pos: T) -> T {
        Self::static_invert_spec(pos)
    }

    open spec fn axis(&self) -> AxisRepresentation {
        Self::static_axis()
    }

    open spec fn chunk(&self) -> ChunkRepresentation {
        Self::static_chunk()
    }

    fn embed(&self, pos: T) -> (r: T) {
        Self::static_embed(pos)
    }

    fn invert(&self, pos: T) -> (r: T) {
        Self::static_invert(pos)
    }

    fn axis_representation(&self) -> (r: AxisRepresentation) {
        <Self as StaticEmbedding<T>>::axis_representation()
    }

    fn chunk_representation(&self) -> (r: ChunkRepresentation) {
        <Self as StaticEmbedding<T>>::chunk_representation()
    }
}

/// The embedding that leaves every point where it is.
pub struct IdentityEmbedding {}

impl<T> StaticEmbedding<T> for IdentityEmbedding {
    open spec fn static_embed_spec(pos: T) -> T {
        pos
    }

    open spec fn static_invert_spec(pos: T) -> T {
        pos
    }

    open spec fn static_axis() -> AxisRepresentation {
        AxisRepresentation::Linear
    }

    open spec fn static_chunk() -> ChunkRepresentation {
        ChunkRepresentation::Scale
    }

    fn static_embed(pos: T) -> (r: T) {
        pos
    }

    fn static_invert(pos: T) -> (r: T) {
        pos
    }

    fn axis_representation() -> (r: AxisRepresentation) {
        AxisRepresentation::Linear
    }

    fn chunk_representation() -> (r: ChunkRepresentation) {
        ChunkRepresentation::Scale
    }
}

/// The embedding that exchanges two components of a point.
pub struct SwapAxesEmbedding {
    pub a1: Axis,
    pub a2: Axis,
}

impl SwapAxesEmbedding {
    pub fn new(a1: Axis, a2: Axis) -> (r: Self)
        ensures
            r.a1 == a1,
            r.a2 == a2,
    {
        Self { a1, a2 }
    }
}

impl<S: Copy> Embedding<Coord<S>> for SwapAxesEmbedding {
    open spec fn embed_spec(&self, pos: Coord<S>) -> Coord<S> {
        pos.spec_swap(self.a1, self.a2)
    }

    open spec fn invert_spec(&self, pos: Coord<S>) -> Coord<S> {
        pos.spec_swap(self.a1, self.a2)
    }

    open spec fn axis(&self) -> AxisRepresentation {
        AxisRepresentation::Cylindrical
    }

    open spec fn chunk(&self) -> ChunkRepresentation {
        ChunkRepresentation::Scale
    }

    fn embed(&self, pos: Coord<S>) -> (r: Coord<S>) {
        pos.swap(self.a1, self.a2)
    }

    fn invert(&self, pos: Coord<S>) -> (r: Coord<S>) {
        pos.swap(self.a1, self.a2)
    }

    fn axis_representation(&self) -> (r: AxisRepresentation) {
        AxisRepresentation::Cylindrical
    }

    fn chunk_representation(&self) -> (r: ChunkRepresentation) {
        ChunkRepresentation::Scale
    }
}

/// Two embeddings applied one after the other: `b` first, then `a`.
///
/// What a composition declares as its axis and chunk representation cannot be
/// read off its parts, so both are given when it is built.
pub struct ComposedEmbedding<A: ?Sized, B: ?Sized> {
    pub a: Box<A>,
    pub b: Box<B>,
    pub axis_representation: AxisRepresentation,
    pub chunk_representation: ChunkRepresentation,
}

impl<A: ?Sized, B: ?Sized> ComposedEmbedding<A, B> {
    pub fn new(
        a: Box<A>,
        b: Box<B>,
        axis_representation: AxisRepresentation,
        chunk_representation: ChunkRepresentation,
    ) -> (r: Self)
        ensures
            r.a == a,
            r.b == b,
            r.axis_representation == axis_representation,
            r.chunk_representation == chunk_representation,
    {
        Self { a, b, axis_representation, chunk_representation }
    }
}

impl<S, A: Embedding<Coord<S>> + ?Sized, B: Embedding<Coord<S>> + ?Sized> Embedding<
    Coord<S>,
> for ComposedEmbedding<A, B> {
    open spec fn embed_spec(&self, pos: Coord<S>) -> Coord<S> {
        self.a.embed_spec(self.b.embed_spec(pos))
    }

    open spec fn invert_spec(&self, pos: Coord<S>) -> Coord<S> {
        self.b.invert_spec(self.a.invert_spec(pos))
    }

    open spec fn axis(&self) -> AxisRepresentation {
        self.axis_representation
    }

    open spec fn chunk(&self) -> ChunkRepresentation {
        self.chunk_representation
    }

    fn embed(&self, pos: Coord<S>) -> (r: Coord<S>) {
        self.a.embed(self.b.embed(pos))
    }

    fn invert(&self, pos: Coord<S>) -> (r: Coord<S>) {
        self.b.invert(self.a.invert(pos))
    }

    fn axis_representation(&self) -> (r: AxisRepresentation) {
        self.axis_representation
    }

    fn chunk_representation(&self) -> (r: ChunkRepresentation) {
        self.chunk_representation
    }
}

/// An embedding given by two functions.
///
/// The functions accept every point and are pure: for each point there is
/// one result that a call can give. Both are asked of whoever builds the
/// embedding and hold for as long as it lives.
#[verifier::reject_recursive_types(S)]
pub struct FnEmbedding<S, F1: Fn(Coord<S>) -> Coord<S>, F2: Fn(Coord<S>) -> Coord<S>> {
    embed: F1,
    invert: F2,
    scalar: PhantomData<S>,
}

/// Whether `f` accepts every point and can give one result only for each.
pub open spec fn is_function<S, F: Fn(Coord<S>) -> Coord<S>>(f: F) -> bool {
    &&& forall|p: Coord<S>| call_requires(f, (p,))
    &&& forall|p: Coord<S>, r1: Coord<S>, r2: Coord<S>|
        call_ensures(f, (p,), r1) && call_ensures(f, (p,), r2) ==> r1 == r2
}

/// What `f` gives on `p`.
pub open spec fn value_of<S, F: Fn(Coord<S>) -> Coord<S>>(f: F, p: Coord<S>) -> Coord<S> {
    choose|r: Coord<S>| call_ensures(f, (p,), r)
}

impl<S, F1: Fn(Coord<S>) -> Coord<S>, F2: Fn(Coord<S>) -> Coord<S>> FnEmbedding<S, F1, F2> {
    #[verifier::type_invariant]
    spec fn inv(self) -> bool {
        is_function(self.embed) && is_function(self.invert)
    }

    /// The function that embeds.
    pub closed spec fn embed_fn(self) -> F1 {
        self.embed
    }

    /// The function that inverts.
    pub closed spec fn invert_fn(self) -> F2 {
        self.invert
    }

    /// The embedding that embeds by `embed` and inverts by `invert`.
    pub fn new(embed: F1, invert: F2) -> (r: Self)
        requires
            is_function(embed),
            is_function(invert),
        ensures
            r.embed_fn() == embed,
            r.invert_fn() == invert,
    {
        Self { embed, invert, scalar: PhantomData }
    }
}

impl<S, F1: Fn(Coord<S>) -> Coord<S>, F2: Fn(Coord<S>) -> Coord<S>> Embedding<
    Coord<S>,
> for FnEmbedding<S, F1, F2> {
    open spec fn embed_spec(&self, pos: Coord<S>) -> Coord<S> {
        value_of(self.embed_fn(), pos)
    }

    open spec fn invert_spec(&self, pos: Coord<S>) -> Coord<S> {
        value_of(self.invert_fn(), pos)
    }

    open spec fn axis(&self) -> AxisRepresentation {
        AxisRepresentation::Cylindrical
    }

    open spec fn chunk(&self) -> ChunkRepresentation {
        ChunkRepresentation::Scale
    }

    /// What the embedding function gives on `pos`.
    fn embed(&self, pos: Coord<S>) -> (r: Coord<S>)
        ensures
            call_ensures(self.embed_fn(), (pos,), r),
    {
        proof {
            use_type_invariant(self);
        }
        (self.embed)(pos)
    }

    /// What the inverting function gives on `pos`.
    fn invert(&self, pos: Coord<S>) -> (r: Coord<S>)
        ensures
            call_ensures(self.invert_fn(), (pos,), r),
    {
        proof {
            use_type_invariant(self);
        }
        (self.invert)(pos)
    }

    fn axis_representation(&self) -> (r: AxisRepresentation) {
        AxisRepresentation::Cylindrical
    }

    fn chunk_representation(&self) -> (r: ChunkRepresentation) {
        ChunkRepresentation::Scale
    }
}

/// `Rc::clone`: a second pointer to the same allocation, so the value it
/// points to is the one `e` points to.
#[verifier::external_body]
fn share<E: ?Sized>(e: &Rc<E>) -> (r: Rc<E>)
    ensures
        r == *e,
{
    Rc::clone(e)
}

/// An embedding as it is held by everything that currently uses it.
///
/// `id` is the embedding's identity. Whoever creates embeddings gives each its
/// own `id`; holders compare ids to tell whether the embedding they last saw
/// is still the one in use, and never look inside the embedding to do so.
pub struct SharedEmbedding<E: ?Sized> {
    pub id: u64,
    pub embedding: Rc<E>,
}

impl<E: ?Sized> SharedEmbedding<E> {
    pub fn new(id: u64, embedding: Rc<E>) -> (r: Self)
        ensures
            r.id == id,
            r.embedding == embedding,
    {
        Self { id, embedding }
    }

    /// Another holder of the same embedding, with the same identity.
    pub fn share(&self) -> (r: Self)
        ensures
            r == *self,
    {
        Self { id: self.id, embedding: share(&self.embedding) }
    }

    /// Whether `self` and `other` name the same embedding.
    pub fn same(&self, other: &Self) -> (r: bool)
        ensures
            r == (self.id == other.id),
    {
        self.id == other.id
    }
}

/// The identity embedding is its own inverse on every point.
pub proof fn identity_round_trip<T>(e: IdentityEmbedding, p: T)
    ensures
        e.embed_spec(p) == p,
        e.invert_spec(p) == p,
        e.invert_spec(e.embed_spec(p)) == p,
{
}

/// Exchanging two axes twice gives every point back: a swap is its own
/// inverse, `embed` and `invert` agree, and `invert` undoes `embed`.
pub proof fn swap_axes_self_inverse<S: Copy>(e: SwapAxesEmbedding, p: Coord<S>)
    ensures
        e.embed_spec(e.embed_spec(p)) == p,
        e.invert_spec(p) == e.embed_spec(p),
        e.invert_spec(e.embed_spec(p)) == p,
{
    p.lemma_swap_twice(e.a1, e.a2);
}

/// A composition embeds through `b` and then `a`, and inverts through `a` and
/// then `b`.
pub proof fn composed_law<S, A: Embedding<Coord<S>> + ?Sized, B: Embedding<Coord<S>> + ?Sized>(
    c: ComposedEmbedding<A, B>,
    p: Coord<S>,
)
    ensures
        c.embed_spec(p) == c.a.embed_spec(c.b.embed_spec(p)),
        c.invert_spec(p) == c.b.invert_spec(c.a.invert_spec(p)),
{
}

/// Where both parts of a composition are undone by their inverses, on `p` and
/// on the image of `p` under `b`, so is the composition on `p`.
pub proof fn composed_round_trip<
    S,
    A: Embedding<Coord<S>> + ?Sized,
    B: Embedding<Coord<S>> + ?Sized,
>(c: ComposedEmbedding<A, B>, p: Coord<S>)
    requires
        c.b.invert_spec(c.b.embed_spec(p)) == p,
        c.a.invert_spec(c.a.embed_spec(c.b.embed_spec(p))) == c.b.embed_spec(p),
    ensures
        c.invert_spec(c.embed_spec(p)) == p,
{
}

} // verus!
