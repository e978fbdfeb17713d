//! Deferred spawning of engine scenes for entities of a simulation.
//!
//! An entity asks for a scene with a [`GodotScene`]. Once per frame a driver
//! collects the entities that carry one into a [`SpawnPass`] and does what the
//! pass asks for: resolve the template, instantiate it, attach the node to the
//! current scene, place it, and give the entity its node and its marker. The
//! pass decides; the driver only calls the engine and reports what came back.
//!
//! - [`scene`]: the request and its builders.
//! - [`erased`]: type-erased references to engine objects.
//! - [`spawn`]: the steps of one request.
//! - [`pass`]: the steps of one pass over many requests.
//! - [`laws`], [`pass_laws`]: what holds of every request and of every pass.
//! - [`engine`]: the engine values and computations taken on trust.

pub mod engine;
pub mod erased;
pub mod laws;
pub mod pass;
pub mod pass_laws;
pub mod scene;
pub mod spawn;

pub use erased::{ErasedGd, ErasedGdResource};
pub use pass::{PassAction, SpawnPass};
pub use scene::{GodotScene, GodotSceneResource, GodotSceneTransform};
pub use spawn::{
    Dimension, Instantiation, SpawnAction, SpawnError, SpawnEvent, SpawnState, SpawnTask,
};
