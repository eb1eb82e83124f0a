//! Integer core of a physically based ray tracer: image tiling into
//! render buckets, pixel addressing, BSDF lobe bookkeeping, sampler
//! dimension bookkeeping, mesh index grouping, the render progress
//! state machine, and reading the scene and render settings files.
pub mod bsdf;
pub mod config;
pub mod display;
pub mod film;
pub mod geometry;
pub mod lights;
pub mod mesh;
pub mod renderer;
pub mod sampler;
pub mod textures;
pub mod yaml;
