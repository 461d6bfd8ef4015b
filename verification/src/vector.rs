//! Points in space, by their three scalars.

use vstd::prelude::*;
use crate::scalar::Scalar;

verus! {

/// A point or a direction: three doubles, which the library carries and
/// compares and never computes with.
#[derive(Clone, Copy, Debug, PartialEq, Eq, Structural)]
pub struct Vec3 {
    pub x: Scalar,
    pub y: Scalar,
    pub z: Scalar,
}

impl Vec3 {
    /// The lattice point `(x, y, z)`.
    pub open spec fn lattice(x: int, y: int, z: int) -> Vec3 {
        Vec3 {
            x: Scalar::spec_from_index(x as nat),
            y: Scalar::spec_from_index(y as nat),
            z: Scalar::spec_from_index(z as nat),
        }
    }

    /// The vector with the given components.
    pub fn new(x: Scalar, y: Scalar, z: Scalar) -> (v: Vec3)
        ensures
            v == (Vec3 { x, y, z }),
    {
        Vec3 { x, y, z }
    }

    /// The origin.
    pub fn zero() -> (v: Vec3)
        ensures
            v.x.bits == 0 && v.y.bits == 0 && v.z.bits == 0,
    {
        Vec3 { x: Scalar::zero(), y: Scalar::zero(), z: Scalar::zero() }
    }

    /// The point whose coordinates are the given whole numbers.
    pub fn from_indices(x: usize, y: usize, z: usize) -> (v: Vec3)
        ensures
            v == Vec3::lattice(x as int, y as int, z as int),
    {
        Vec3 { x: Scalar::from_index(x), y: Scalar::from_index(y), z: Scalar::from_index(z) }
    }
}

} // verus!
