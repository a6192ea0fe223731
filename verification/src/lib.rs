//! Host-side core of a hybrid deferred / ray-bounce renderer: the scene graph,
//! instance allocation, the ping-pong ray buffer and the per-frame pass plans,
//! each with a contract that Verus proves.
//!
//! The crate records no GPU command itself. It decides what is to be recorded
//! and hands that out as plain values; resources are named by their index in
//! the caller's tables. Transforms are values of a type of the caller's
//! choice, composed by an operation of the caller's choice.

pub mod g_buffer;
pub mod geometry;
pub mod gltf_loader;
pub mod graphics;
pub mod hierarchy;
pub mod instance;
pub mod irradiance_cache;
pub mod mesh;
pub mod pipeline;
pub mod ray_buffer;
pub mod renderer;
pub mod scene;
pub mod texture;
