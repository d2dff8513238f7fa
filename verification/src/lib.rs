//! A CPU path-tracing renderer core over fixed-point arithmetic: geometric
//! intersection testing, a closed material scattering model, a depth-capped
//! recursive radiance integrator, and a per-pixel frame scheduler whose
//! buffer slots are pure functions of scene, camera, seed and index.

pub mod camera;
pub mod cube;
pub mod fixed;
pub mod hitable;
pub mod hitable_library;
pub mod hitable_list;
pub mod material;
pub mod ray;
pub mod render;
pub mod rng;
pub mod sphere;
pub mod vec3;
