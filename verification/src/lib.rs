//! The deciding core of a ray tracer for scenes of axis-aligned cubes.
//!
//! Everything here works on exact data: integers, bytes, faces, and
//! [`scalar::Scalar`]s, which are doubles that the library only ever compares.
//! The arithmetic on doubles that turns a camera and a pixel into ray
//! parameters, and a hit into a shaded colour, belongs to the caller.

pub mod canvas;
pub mod controls;
pub mod face;
pub mod layers;
pub mod material;
pub mod raytracer;
pub mod render;
pub mod scalar;
pub mod scene;
pub mod slab;
pub mod texture;
pub mod vector;
