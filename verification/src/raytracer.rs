//! What a ray does: which cube it hits first, and what follows from the hit.

use vstd::prelude::*;
use crate::material::BITS_0_3;
use crate::scalar::{Scalar, INFINITY_BITS};
use crate::scene::{Cube, Scene};
use crate::slab::{HitRecord, Slabs};

verus! {

/// The depth at which a ray is no longer traced.
pub const MAX_DEPTH: u32 = 2;

/// The depth from which on a hit spawns no reflected or refracted ray.
pub const BOUNCE_DEPTH: u32 = 2;

/// The bit pattern of 0.001: hits nearer than this to the origin of a ray are
/// ignored, so that a ray that leaves a surface does not hit it again.
pub const EPSILON_BITS: u64 = 0x3f50_624d_d2f1_a9fc;

/// The bit pattern of 0.5.
pub const BITS_0_5: u64 = 0x3fe0_0000_0000_0000;

/// Black, by the bit patterns of its red, green and blue: three times 0.0.
pub const BLACK: [u64; 3] = [0, 0, 0];

/// The hit of a ray on a scene: the cube, by its place in the scene, and the
/// hit on it.
#[derive(Clone, Copy, Debug, PartialEq, Eq, Structural)]
pub struct Nearest {
    pub cube: usize,
    pub hit: HitRecord,
}

/// What tracing a ray comes to, before any colour is computed.
#[derive(Clone, Copy, Debug, PartialEq, Eq, Structural)]
pub enum TraceStep {
    /// The ray is too deep: its colour is [`BLACK`].
    Black,
    /// The ray hits nothing: its colour is that of the sky in its direction.
    Sky,
    /// The ray hits a cube. Its colour is the lit colour of the surface,
    /// blended with that of a reflected ray where `reflect` is set and with
    /// that of a refracted ray where `refract` is set and the refraction
    /// exists. Both rays are one deeper than this one.
    Shade { nearest: Nearest, reflect: bool, refract: bool },
}

/// How far the search reaches before the cube in place `n` is tried: up to
/// the hit found among the cubes before it, and without end where there is
/// none.
pub open spec fn reach(found: Option<Nearest>) -> Scalar {
    match found {
        Some(nearest) => nearest.hit.t,
        None => Scalar { bits: INFINITY_BITS },
    }
}

/// The hit that a scan of the first `n` cubes ends with. Each cube is tried
/// from 0.001 up to the hit found so far, and a cube that is hit there takes
/// its place.
pub open spec fn spec_closest_hit(slabs: Seq<Slabs>, n: int) -> Option<Nearest>
    decreases n,
{
    if n <= 0 {
        None
    } else {
        let found = spec_closest_hit(slabs, n - 1);
        match slabs[n - 1].spec_intersect(Scalar { bits: EPSILON_BITS }, reach(found)) {
            Some(hit) => Some(Nearest { cube: (n - 1) as usize, hit }),
            None => found,
        }
    }
}

/// What tracing a ray at `depth` comes to, `slabs` being the cubes of the
/// scene as the ray sees them, in the order of the scene.
pub open spec fn spec_trace_ray(slabs: Seq<Slabs>, cubes: Seq<Cube>, depth: u32) -> TraceStep {
    if depth >= MAX_DEPTH {
        TraceStep::Black
    } else {
        match spec_closest_hit(slabs, slabs.len() as int) {
            None => TraceStep::Sky,
            Some(nearest) => {
                let material = cubes[nearest.cube as int].material;
                TraceStep::Shade {
                    nearest,
                    reflect: depth < BOUNCE_DEPTH && material.reflectivity.gt(
                        Scalar { bits: BITS_0_3 },
                    ),
                    refract: depth < BOUNCE_DEPTH && material.transparency.gt(
                        Scalar { bits: BITS_0_5 },
                    ),
                }
            },
        }
    }
}

/// Finds the nearest hit of a ray on the cubes of a scene, `slabs` being the
/// cubes as the ray sees them.
pub fn closest_hit(slabs: &Vec<Slabs>) -> (found: Option<Nearest>)
    ensures
        found == spec_closest_hit(slabs@, slabs.len() as int),
        found is Some ==> found->0.cube < slabs.len(),
{
    let epsilon = Scalar::from_bits(EPSILON_BITS);
    let mut found: Option<Nearest> = None;
    let mut limit = Scalar::infinity();
    let mut i: usize = 0;
    while i < slabs.len()
        invariant
            i <= slabs.len(),
            epsilon.bits == EPSILON_BITS,
            found == spec_closest_hit(slabs@, i as int),
            limit == reach(found),
            found is Some ==> found->0.cube < i,
        decreases slabs.len() - i,
    {
        match slabs[i].intersect(epsilon, limit) {
            Some(hit) => {
                limit = hit.t;
                found = Some(Nearest { cube: i, hit });
            },
            None => {},
        }
        i += 1;
    }
    found
}

/// Decides what tracing a ray at `depth` comes to.
///
/// `slabs` holds, for each cube of the scene and in the same order, the cube
/// as the ray sees it.
pub fn trace_ray(slabs: &Vec<Slabs>, scene: &Scene, depth: u32) -> (step: TraceStep)
    requires
        slabs.len() == scene.cubes.len(),
    ensures
        step == spec_trace_ray(slabs@, scene.cubes@, depth),
{
    if depth >= MAX_DEPTH {
        return TraceStep::Black;
    }
    match closest_hit(slabs) {
        None => TraceStep::Sky,
        Some(nearest) => {
            let material = &scene.cubes[nearest.cube].material;
            let reflect = depth < BOUNCE_DEPTH && material.reflectivity.gt(
                Scalar::from_bits(BITS_0_3),
            );
            let refract = depth < BOUNCE_DEPTH && material.transparency.gt(
                Scalar::from_bits(BITS_0_5),
            );
            TraceStep::Shade { nearest, reflect, refract }
        },
    }
}

/// No ray is traced deeper than `MAX_DEPTH`: a ray at that depth is black and
/// spawns nothing, and a ray that spawns another is less deep, so that the
/// spawned ray is at `MAX_DEPTH` at most.
pub proof fn lemma_bounces_end_at_max_depth(slabs: Seq<Slabs>, cubes: Seq<Cube>, depth: u32)
    ensures
        depth >= MAX_DEPTH ==> spec_trace_ray(slabs, cubes, depth) == TraceStep::Black,
        spec_trace_ray(slabs, cubes, depth) matches TraceStep::Shade { reflect, refract, .. } && (
        reflect || refract) ==> depth + 1 <= MAX_DEPTH,
{
}

/// A ray that hits no cube of the scene sees the sky, and only such a ray
/// does: below `MAX_DEPTH` the step is Sky exactly where every cube, tried
/// from 0.001 on without end, is missed.
pub proof fn lemma_sky_iff_all_missed(slabs: Seq<Slabs>, cubes: Seq<Cube>, depth: u32)
    requires
        depth < MAX_DEPTH,
    ensures
        spec_trace_ray(slabs, cubes, depth) == TraceStep::Sky <==> forall|i: int|
            0 <= i < slabs.len() ==> (#[trigger] slabs[i]).spec_intersect(
                Scalar { bits: EPSILON_BITS },
                Scalar { bits: INFINITY_BITS },
            ) is None,
{
    lemma_none_found_iff_all_missed(slabs, slabs.len() as int);
}

/// In a scene without cubes every ray that is traced sees the sky.
pub proof fn lemma_empty_scene_is_sky(cubes: Seq<Cube>, depth: u32)
    requires
        depth < MAX_DEPTH,
    ensures
        spec_trace_ray(Seq::empty(), cubes, depth) == TraceStep::Sky,
{
}

proof fn lemma_none_found_iff_all_missed(slabs: Seq<Slabs>, n: int)
    requires
        0 <= n <= slabs.len(),
    ensures
        spec_closest_hit(slabs, n) is None <==> forall|i: int|
            0 <= i < n ==> (#[trigger] slabs[i]).spec_intersect(
                Scalar { bits: EPSILON_BITS },
                Scalar { bits: INFINITY_BITS },
            ) is None,
    decreases n,
{
    if n > 0 {
        lemma_none_found_iff_all_missed(slabs, n - 1);
        if spec_closest_hit(slabs, n - 1) is Some {
            lemma_found_is_number(slabs, n - 1);
            let limit = reach(spec_closest_hit(slabs, n - 1));
            let i = choose|i: int|
                0 <= i < n - 1 && (#[trigger] slabs[i]).spec_intersect(
                    Scalar { bits: EPSILON_BITS },
                    Scalar { bits: INFINITY_BITS },
                ) is Some;
            assert(slabs[i].spec_intersect(
                Scalar { bits: EPSILON_BITS },
                Scalar { bits: INFINITY_BITS },
            ) is Some);
        }
    }
}

/// The hit that a scan ends with is on a cube of the scan, and its parameter
/// is a number that is not below 0.001.
pub proof fn lemma_found_is_number(slabs: Seq<Slabs>, n: int)
    requires
        0 <= n <= slabs.len(),
        spec_closest_hit(slabs, n) is Some,
    ensures
        0 <= spec_closest_hit(slabs, n)->0.cube < n,
        (Scalar { bits: EPSILON_BITS }).le(spec_closest_hit(slabs, n)->0.hit.t),
    decreases n,
{
    if n > 0 {
        let found = spec_closest_hit(slabs, n - 1);
        if found is Some {
            lemma_found_is_number(slabs, n - 1);
        }
    }
}

/// None of the first `n` cubes is hit before the hit that the scan of them
/// ends with: a cube that is hit at all, tried from 0.001 on without end, is
/// hit no earlier than that.
pub proof fn lemma_found_is_nearest(slabs: Seq<Slabs>, n: int, i: int)
    requires
        0 <= i < n <= slabs.len(),
        slabs[i].spec_intersect(
            Scalar { bits: EPSILON_BITS },
            Scalar { bits: INFINITY_BITS },
        ) is Some,
    ensures
        spec_closest_hit(slabs, n) is Some,
        spec_closest_hit(slabs, n)->0.hit.t.le(
            slabs[i].spec_intersect(
                Scalar { bits: EPSILON_BITS },
                Scalar { bits: INFINITY_BITS },
            )->0.t,
        ),
    decreases n,
{
    let found = spec_closest_hit(slabs, n - 1);
    if found is Some {
        lemma_found_is_number(slabs, n - 1);
    }
    if i < n - 1 {
        lemma_found_is_nearest(slabs, n - 1, i);
    }
}

} // verus!
