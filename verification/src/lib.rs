//! An offline path tracer: scene geometry, a bounding-volume hierarchy,
//! material scattering and a Monte-Carlo integrator, all over exact
//! fixed-point coordinates so that every result is pinned by a contract.

pub mod aabb;
pub mod bvh;
pub mod camera;
pub mod color;
pub mod image;
pub mod fixed;
pub mod hittable;
pub mod material;
pub mod plane;
pub mod primitive;
pub mod ray;
pub mod rng;
pub mod sphere;
pub mod triangle;
pub mod trimesh;
pub mod vec3;
