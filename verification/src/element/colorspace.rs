//! The colour volume: the element that shows the whole coordinate cube.

use crate::coord::{zipped, Coord};
use crate::element::ColorElement;
use crate::embed::{ChunkRepresentation, Embedding};
use crate::input::InputState;
use vstd::prelude::*;
use vstd::std_specs::cmp::PartialEqSpec;

verus! {

/// Everything the cached geometry of the volume depends on.
#[derive(Debug, Clone, Copy, PartialEq)]
pub struct SpaceKey<S> {
    /// The extent of the visible sub-region.
    pub chunk: Coord<S>,
    /// How the extent is applied.
    pub representation: ChunkRepresentation,
    /// The identity of the colour embedding.
    pub color_embedding: u64,
    /// The identity of the space embedding.
    pub space_embedding: u64,
}

/// Which cached copies of the geometry have to be embedded anew.
#[derive(Debug, Clone, Copy, PartialEq, Eq, Structural)]
pub struct Refresh {
    /// The copy embedded through the colour embedding.
    pub color: bool,
    /// The copy embedded through the space embedding.
    pub space: bool,
}

/// The transform under which the volume is drawn.
#[derive(Debug, Clone, Copy, PartialEq)]
pub enum ModelTransform<S> {
    /// The geometry is drawn where it is.
    Identity,
    /// The geometry is scaled along each axis by the matching component.
    NonuniformScale(Coord<S>),
}

/// The colour volume.
///
/// It owns all three components: a hit on it is the logical coordinate. Its
/// geometry is embedded anew only when something the geometry depends on has
/// changed between two updates; `key` and `previous` are what it depended on
/// at the last update and at the one before.
#[derive(Debug, Clone, Copy, PartialEq)]
pub struct ColorSpace<S> {
    /// What the geometry depends on, as of the last update.
    pub key: Option<SpaceKey<S>>,
    /// What it depended on at the update before that.
    pub previous: Option<SpaceKey<S>>,
}

/// What a state asks the volume's geometry to show.
pub open spec fn key_of<S, E: Embedding<Coord<S>> + ?Sized>(state: InputState<S, E>) -> SpaceKey<S> {
    SpaceKey {
        chunk: state.chunk,
        representation: state.space_embedding.embedding.chunk(),
        color_embedding: state.color_embedding.id,
        space_embedding: state.space_embedding.id,
    }
}

/// Whether `r` is the image under `embedding` of what `f` can make of `v` and
/// `chunk` component by component: first the combination, then the embedding.
pub open spec fn embeds_combined<S, E: Embedding<Coord<S>> + ?Sized, F: Fn(S, S) -> S>(
    embedding: &E,
    f: F,
    v: Coord<S>,
    chunk: Coord<S>,
    r: Coord<S>,
) -> bool {
    exists|combined: Coord<S>| #[trigger]
        zipped(f, v, chunk, combined) && r == embedding.embed_spec(combined)
}

/// Whether two extents differ, by the scalar type's own equality.
pub open spec fn chunk_differs<S: PartialEq>(a: Coord<S>, b: Coord<S>) -> bool {
    !(a.x.eq_spec(&b.x) && a.y.eq_spec(&b.y) && a.z.eq_spec(&b.z))
}

/// What has to be embedded anew after a step from `previous` to `key`, given
/// whether the extent changed on the way.
///
/// Before the first update nothing is due, and at the first update
/// everything. After that the colour copy is due when the extent, the colour
/// embedding or the representation changed; the space copy when the space
/// embedding or the representation changed, or when the extent changed and
/// vertices are clamped to it.
pub open spec fn refresh_spec<S>(
    previous: Option<SpaceKey<S>>,
    key: Option<SpaceKey<S>>,
    chunk_changed: bool,
) -> Refresh {
    match key {
        None => Refresh { color: false, space: false },
        Some(now) => match previous {
            None => Refresh { color: true, space: true },
            Some(before) => {
                let turned = before.representation != now.representation;
                let clamped = now.representation == ChunkRepresentation::Clamp;
                Refresh {
                    color: chunk_changed || turned || before.color_embedding
                        != now.color_embedding,
                    space: turned || before.space_embedding != now.space_embedding || (clamped
                        && chunk_changed),
                }
            },
        },
    }
}

impl<S: Copy> ColorSpace<S> {
    /// A volume that has not been updated yet.
    pub fn new() -> (r: Self)
        ensures
            r == (ColorSpace::<S> { key: None, previous: None }),
    {
        ColorSpace { key: None, previous: None }
    }

    /// The transform under which the volume is drawn, as a function of the
    /// key.
    pub open spec fn model_transform_spec(&self) -> ModelTransform<S> {
        match self.key {
            Some(key) => match key.representation {
                ChunkRepresentation::Scale => ModelTransform::NonuniformScale(key.chunk),
                ChunkRepresentation::Clamp => ModelTransform::Identity,
            },
            None => ModelTransform::Identity,
        }
    }

    /// The extent that each vertex is clamped to before it is embedded, as a
    /// function of the key.
    pub open spec fn clamp_spec(&self) -> Option<Coord<S>> {
        match self.key {
            Some(key) => match key.representation {
                ChunkRepresentation::Scale => None,
                ChunkRepresentation::Clamp => Some(key.chunk),
            },
            None => None,
        }
    }

    /// The transform under which the volume is drawn: a scale by the chunk
    /// where the chunk is applied as a scale, and the identity where vertices
    /// are clamped instead or nothing has been updated yet.
    pub fn model_transform(&self) -> (r: ModelTransform<S>)
        ensures
            r == self.model_transform_spec(),
    {
        match &self.key {
            Some(key) => match key.representation {
                ChunkRepresentation::Scale => ModelTransform::NonuniformScale(key.chunk),
                ChunkRepresentation::Clamp => ModelTransform::Identity,
            },
            None => ModelTransform::Identity,
        }
    }

    /// The extent that each vertex is clamped to, component by component,
    /// before it is embedded: the chunk where the representation is `Clamp`,
    /// nothing otherwise.
    pub fn clamp(&self) -> (r: Option<Coord<S>>)
        ensures
            r == self.clamp_spec(),
    {
        match &self.key {
            Some(key) => match key.representation {
                ChunkRepresentation::Scale => None,
                ChunkRepresentation::Clamp => Some(key.chunk),
            },
            None => None,
        }
    }

    /// The vertex of the colour copy for the input vertex `v`, with
    /// `embedding` as the colour embedding.
    ///
    /// The input vertex is combined with the chunk component by component,
    /// by `min` where vertices are clamped and by `mul` where the chunk is a
    /// scale, and what comes of that is embedded. Before the first update
    /// there is no chunk, and the input vertex is embedded as it is.
    pub fn color_vertex<E: Embedding<Coord<S>> + ?Sized, Min: Fn(S, S) -> S, Mul: Fn(S, S) -> S>(
        &self,
        embedding: &E,
        v: Coord<S>,
        min: Min,
        mul: Mul,
    ) -> (r: Coord<S>)
        requires
            forall|a: S, b: S| call_requires(min, (a, b)),
            forall|a: S, b: S| call_requires(mul, (a, b)),
        ensures
            match self.key {
                Some(key) => match key.representation {
                    ChunkRepresentation::Clamp => embeds_combined(embedding, min, v, key.chunk, r),
                    ChunkRepresentation::Scale => embeds_combined(embedding, mul, v, key.chunk, r),
                },
                None => r == embedding.embed_spec(v),
            },
    {
        match &self.key {
            Some(key) => match key.representation {
                ChunkRepresentation::Clamp => embedding.embed(v.zip(key.chunk, min)),
                ChunkRepresentation::Scale => embedding.embed(v.zip(key.chunk, mul)),
            },
            None => embedding.embed(v),
        }
    }

    /// The vertex of the space copy for the input vertex `v`, with
    /// `embedding` as the space embedding.
    ///
    /// Where vertices are clamped, the input vertex is combined with the
    /// chunk component by component by `min`, and what comes of that is
    /// embedded. Where the chunk is a scale the model transform applies it,
    /// and the input vertex is embedded as it is; so it is before the first
    /// update.
    pub fn space_vertex<E: Embedding<Coord<S>> + ?Sized, Min: Fn(S, S) -> S>(
        &self,
        embedding: &E,
        v: Coord<S>,
        min: Min,
    ) -> (r: Coord<S>)
        requires
            forall|a: S, b: S| call_requires(min, (a, b)),
        ensures
            match self.clamp_spec() {
                Some(chunk) => embeds_combined(embedding, min, v, chunk, r),
                None => r == embedding.embed_spec(v),
            },
    {
        match self.clamp() {
            Some(chunk) => embedding.embed(v.zip(chunk, min)),
            None => embedding.embed(v),
        }
    }

    /// What has to be embedded anew after the last update, given whether the
    /// extent changed in it.
    pub fn plan(&self, chunk_changed: bool) -> (r: Refresh)
        ensures
            r == refresh_spec(self.previous, self.key, chunk_changed),
    {
        match &self.key {
            None => Refresh { color: false, space: false },
            Some(now) => match &self.previous {
                None => Refresh { color: true, space: true },
                Some(before) => {
                    let turned = before.representation != now.representation;
                    let clamped = now.representation == ChunkRepresentation::Clamp;
                    Refresh {
                        color: chunk_changed || turned || before.color_embedding
                            != now.color_embedding,
                        space: turned || before.space_embedding != now.space_embedding || (clamped
                            && chunk_changed),
                    }
                },
            },
        }
    }
}

impl<S: Copy + PartialEq> ColorSpace<S> {
    /// What has to be embedded anew after the last update.
    ///
    /// Whether the extent changed is decided by the scalar type's `==`. The
    /// result is the plan for one of its two possible answers, and for the
    /// answer that `eq_spec` gives where the scalar type keeps to it.
    pub fn refresh(&self) -> (r: Refresh)
        ensures
            r == refresh_spec(self.previous, self.key, true) || r == refresh_spec(
                self.previous,
                self.key,
                false,
            ),
            S::obeys_eq_spec() && self.key.is_some() && self.previous.is_some() ==> r
                == refresh_spec(
                self.previous,
                self.key,
                chunk_differs(self.previous.unwrap().chunk, self.key.unwrap().chunk),
            ),
            self.key.is_none() || self.previous.is_none() ==> r == refresh_spec(
                self.previous,
                self.key,
                false,
            ),
    {
        let chunk_changed = match (&self.previous, &self.key) {
            (Some(before), Some(now)) => {
                before.chunk.x != now.chunk.x || before.chunk.y != now.chunk.y || before.chunk.z
                    != now.chunk.z
            },
            _ => false,
        };
        self.plan(chunk_changed)
    }
}

impl<S: Copy, E: Embedding<Coord<S>> + ?Sized> ColorElement<S, E> for ColorSpace<S> {
    open spec fn wf(&self) -> bool {
        true
    }

    open spec fn update_spec(self, state: InputState<S, E>) -> Self {
        ColorSpace { key: Some(key_of(state)), previous: self.key }
    }

    open spec fn entered_spec(self) -> Self {
        self
    }

    open spec fn exited_spec(self) -> Self {
        self
    }

    open spec fn clicked_spec(self) -> Self {
        self
    }

    open spec fn update_state_spec(&self, state: InputState<S, E>) -> InputState<S, E> {
        state
    }

    open spec fn invert_space_spec(&self, pos: Coord<S>) -> Option<Coord<S>> {
        Some(pos)
    }

    /// Takes what the geometry depends on from the state, and keeps what it
    /// depended on before.
    fn update(&mut self, state: &InputState<S, E>) {
        let key = SpaceKey {
            chunk: state.chunk,
            representation: state.space_embedding.embedding.chunk_representation(),
            color_embedding: state.color_embedding.id,
            space_embedding: state.space_embedding.id,
        };
        self.previous = self.key.take();
        self.key = Some(key);
    }

    fn entered(&mut self) {
    }

    fn exited(&mut self) {
    }

    fn clicked(&mut self) {
    }

    fn update_state(&self, state: &mut InputState<S, E>) {
    }

    /// A hit on the volume is the logical coordinate itself.
    fn invert_space(&self, pos: Coord<S>) -> (r: Option<Coord<S>>) {
        Some(pos)
    }
}

} // verus!
