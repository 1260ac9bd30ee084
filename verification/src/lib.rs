//! The interaction core of a colour-space explorer: coordinate embeddings,
//! the scene elements that turn a pick hit into a logical coordinate, and the
//! per-frame engine that dispatches hits and keeps the shared state.
//!
//! The library never computes with scalars itself. Coordinates are generic in
//! their component type, and every numeric transform reaches the library
//! through the [`embed::Embedding`] trait.

pub mod coord;
pub mod embed;
pub mod element;
pub mod input;
pub mod scene;
pub mod renders;
pub mod mesh;
pub mod pre_embed;
