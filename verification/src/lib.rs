//! CPU-side logic of a set of OpenGL rendering examples: texture format
//! selection, vertex attribute layouts, OBJ mesh assembly, the texture cache
//! of a loaded model, instance grids, asteroid field sampling and the
//! life cycle of an example's GPU state.
//!
//! Everything that talks to the GPU, reads files or does floating point
//! arithmetic lives in the application crate; it hands this library plain
//! values and performs the actions that the library decides.

pub mod gl_enums;
pub mod texture_format;
pub mod vertex_layout;
pub mod instancing;
pub mod asteroids;
pub mod mesh;
pub mod model;
pub mod lifecycle;
pub mod names;
pub mod input;
