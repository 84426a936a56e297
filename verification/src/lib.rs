//! A small ray tracer whose numeric core is verified.
//!
//! Real-valued quantities (coordinates, directions, linear-light colors,
//! ray parameters) are represented in signed 16.16 fixed point: an `i64`
//! raw value stands for `raw / 65536`. Every arithmetic step saturates at
//! the `i64` range and rounds by flooring, and every operation carries an
//! exact contract over those semantics, so the whole pipeline — sphere
//! intersection, nearest-hit selection over a scene, material scattering
//! and the depth-bounded radiance estimator — is verified end to end.
//! Randomness comes from a seedable source; whatever it yields, the
//! contracts hold.

pub mod camera;
pub mod color;
pub mod fx;
pub mod hittable;
pub mod interval;
pub mod material;
pub mod rand_src;
pub mod ray;
pub mod sphere;
pub mod vec3;
