//! The slab method: where along a ray an axis-aligned cube is entered and left.
//!
//! A ray `origin + t * direction` meets the two planes that bound a cube on one
//! axis at two parameters. The caller computes them, for each axis, from the
//! reciprocal of the direction's component; this module compares them. It
//! intersects the three parameter intervals with the interval the caller asks
//! about, tells whether anything is left, and names the parameter and the face
//! of the hit.

use vstd::prelude::*;
use crate::face::{Axis, Face, lemma_entering_normal_opposes_the_ray};
use crate::scalar::Scalar;

verus! {

/// One axis of a cube as a ray sees it.
#[derive(Clone, Copy, Debug, PartialEq, Eq, Structural)]
pub struct AxisPass {
    /// One over the direction's component on this axis. Infinite where the
    /// component is zero.
    pub inv_d: Scalar,
    /// The parameter at the cube's lower plane: `(min - origin) * inv_d`.
    pub at_min: Scalar,
    /// The parameter at the cube's upper plane: `(max - origin) * inv_d`.
    pub at_max: Scalar,
}

/// A cube as a ray sees it: one pass for each axis.
#[derive(Clone, Copy, Debug, PartialEq, Eq, Structural)]
pub struct Slabs {
    pub x: AxisPass,
    pub y: AxisPass,
    pub z: AxisPass,
}

/// A hit: the ray parameter and the face hit.
#[derive(Clone, Copy, Debug, PartialEq, Eq, Structural)]
pub struct HitRecord {
    pub t: Scalar,
    pub face: Face,
}

/// The part of the ray still in play while the axes are taken in turn.
///
/// `entry` is the face of the axis that last raised `lo`, `exit` the face of
/// the axis that last lowered `hi`. Both start at Top.
#[derive(Clone, Copy, Debug, PartialEq, Eq, Structural)]
pub struct Span {
    pub lo: Scalar,
    pub hi: Scalar,
    pub entry: Face,
    pub exit: Face,
}

impl AxisPass {
    /// The ray travels towards smaller coordinates on this axis.
    pub open spec fn spec_negative(self) -> bool {
        self.inv_d.lt(Scalar { bits: 0 })
    }

    /// The parameter at which the ray enters the slab.
    pub open spec fn spec_near(self) -> Scalar {
        if self.spec_negative() {
            self.at_max
        } else {
            self.at_min
        }
    }

    /// The parameter at which the ray leaves the slab.
    pub open spec fn spec_far(self) -> Scalar {
        if self.spec_negative() {
            self.at_min
        } else {
            self.at_max
        }
    }

    /// The ray travels towards smaller coordinates on this axis.
    #[verifier::when_used_as_spec(spec_negative)]
    pub fn negative(self) -> (r: bool)
        ensures
            r == self.spec_negative(),
    {
        self.inv_d.lt(Scalar::zero())
    }

    /// The parameter at which the ray enters the slab.
    #[verifier::when_used_as_spec(spec_near)]
    pub fn near(self) -> (t: Scalar)
        ensures
            t == self.spec_near(),
    {
        if self.negative() {
            self.at_max
        } else {
            self.at_min
        }
    }

    /// The parameter at which the ray leaves the slab.
    #[verifier::when_used_as_spec(spec_far)]
    pub fn far(self) -> (t: Scalar)
        ensures
            t == self.spec_far(),
    {
        if self.negative() {
            self.at_min
        } else {
            self.at_max
        }
    }
}

impl Span {
    /// The span `[t_min, t_max]` before any axis was looked at.
    pub open spec fn spec_start(t_min: Scalar, t_max: Scalar) -> Span {
        Span { lo: t_min, hi: t_max, entry: Face::Top, exit: Face::Top }
    }

    /// The span cut down to the slab of one axis. A bound moves only where the
    /// slab's bound is strictly tighter, and takes the face with it.
    pub open spec fn spec_narrow(self, axis: Axis, pass: AxisPass) -> Span {
        let raise = pass.near().gt(self.lo);
        let lower = pass.far().lt(self.hi);
        Span {
            lo: if raise { pass.near() } else { self.lo },
            hi: if lower { pass.far() } else { self.hi },
            entry: if raise { Face::entering(axis, pass.negative()) } else { self.entry },
            exit: if lower { Face::leaving(axis, pass.negative()) } else { self.exit },
        }
    }

    /// Nothing is left of the span.
    pub open spec fn spec_crossed(self) -> bool {
        self.lo.gt(self.hi)
    }

    #[verifier::when_used_as_spec(spec_start)]
    pub fn start(t_min: Scalar, t_max: Scalar) -> (span: Span)
        ensures
            span == Span::spec_start(t_min, t_max),
    {
        Span { lo: t_min, hi: t_max, entry: Face::Top, exit: Face::Top }
    }

    #[verifier::when_used_as_spec(spec_narrow)]
    pub fn narrow(self, axis: Axis, pass: AxisPass) -> (span: Span)
        ensures
            span == self.spec_narrow(axis, pass),
    {
        let near = pass.near();
        let far = pass.far();
        let mut span = self;
        if near.gt(self.lo) {
            span.lo = near;
            span.entry = Face::entering(axis, pass.negative());
        }
        if far.lt(self.hi) {
            span.hi = far;
            span.exit = Face::leaving(axis, pass.negative());
        }
        span
    }

    #[verifier::when_used_as_spec(spec_crossed)]
    pub fn crossed(self) -> (r: bool)
        ensures
            r == self.spec_crossed(),
    {
        self.lo.gt(self.hi)
    }
}

impl Slabs {
    /// The span after the x axis.
    pub open spec fn after_x(self, t_min: Scalar, t_max: Scalar) -> Span {
        Span::start(t_min, t_max).narrow(Axis::X, self.x)
    }

    /// The span after the x and y axes.
    pub open spec fn after_y(self, t_min: Scalar, t_max: Scalar) -> Span {
        self.after_x(t_min, t_max).narrow(Axis::Y, self.y)
    }

    /// The span after all three axes.
    pub open spec fn after_z(self, t_min: Scalar, t_max: Scalar) -> Span {
        self.after_y(t_min, t_max).narrow(Axis::Z, self.z)
    }

    /// The hit of the ray on the cube within `[t_min, t_max]`, if there is one.
    ///
    /// The axes are taken in the order x, y, z, and the cube is missed as soon
    /// as the span is crossed. Otherwise the hit is at the lower bound where
    /// that was raised above `t_min`, on the entry face; and else at the upper
    /// bound, on the exit face: the ray began inside the cube. A parameter
    /// that does not compare as inside `[t_min, t_max]` is no hit.
    pub open spec fn spec_intersect(self, t_min: Scalar, t_max: Scalar) -> Option<HitRecord> {
        let span = self.after_z(t_min, t_max);
        if self.after_x(t_min, t_max).crossed() || self.after_y(t_min, t_max).crossed()
            || span.crossed() {
            None
        } else {
            let outside = span.lo.gt(t_min);
            let t = if outside { span.lo } else { span.hi };
            if t.lt(t_min) || t.gt(t_max) {
                None
            } else {
                Some(HitRecord { t, face: if outside { span.entry } else { span.exit } })
            }
        }
    }

    /// Intersects the ray with the cube within `[t_min, t_max]`.
    pub fn intersect(&self, t_min: Scalar, t_max: Scalar) -> (hit: Option<HitRecord>)
        ensures
            hit == self.spec_intersect(t_min, t_max),
    {
        let span = Span::start(t_min, t_max).narrow(Axis::X, self.x);
        if span.crossed() {
            return None;
        }
        let span = span.narrow(Axis::Y, self.y);
        if span.crossed() {
            return None;
        }
        let span = span.narrow(Axis::Z, self.z);
        if span.crossed() {
            return None;
        }
        let outside = span.lo.gt(t_min);
        let t = if outside { span.lo } else { span.hi };
        if t.lt(t_min) || t.gt(t_max) {
            return None;
        }
        Some(HitRecord { t, face: if outside { span.entry } else { span.exit } })
    }
}

impl Slabs {
    /// The pass of one axis.
    pub open spec fn pass(self, axis: Axis) -> AxisPass {
        match axis {
            Axis::X => self.x,
            Axis::Y => self.y,
            Axis::Z => self.z,
        }
    }

    /// None of the six plane parameters is a NaN.
    pub open spec fn all_numbers(self) -> bool {
        &&& !self.x.at_min.is_nan() && !self.x.at_max.is_nan()
        &&& !self.y.at_min.is_nan() && !self.y.at_max.is_nan()
        &&& !self.z.at_min.is_nan() && !self.z.at_max.is_nan()
    }

    /// The ray is inside the closed cube at parameter `w`: on every axis `w`
    /// lies between the entry into the slab and the exit from it.
    pub open spec fn inside_at(self, w: Scalar) -> bool {
        forall|axis: Axis|
            #![trigger self.pass(axis)]
            self.pass(axis).near().le(w) && w.le(self.pass(axis).far())
    }
}

/// A ray that, somewhere within `[t_min, t_max]`, is inside the cube hits it.
pub proof fn lemma_ray_through_cube_hits(slabs: Slabs, t_min: Scalar, t_max: Scalar, w: Scalar)
    requires
        t_min.le(w),
        w.le(t_max),
        slabs.inside_at(w),
    ensures
        slabs.spec_intersect(t_min, t_max) is Some,
{
    assert(slabs.pass(Axis::X) == slabs.x);
    assert(slabs.pass(Axis::Y) == slabs.y);
    assert(slabs.pass(Axis::Z) == slabs.z);
}

/// A ray that on one axis has left the slab before `t_min`, or enters it only
/// after `t_max`, or enters it only after it has left the slab of another
/// axis, misses the cube, whatever the remaining axes say.
///
/// The last case is that of a ray that runs beside the cube: it includes the
/// ray parallel to a slab with its origin outside it, which enters that slab
/// at infinity, later than it leaves any slab that it crosses.
pub proof fn lemma_ray_outside_slab_misses(
    slabs: Slabs,
    t_min: Scalar,
    t_max: Scalar,
    axis: Axis,
    other: Axis,
)
    requires
        !t_min.is_nan(),
        !t_max.is_nan(),
        slabs.pass(axis).far().lt(t_min) || slabs.pass(axis).near().gt(t_max) || slabs.pass(
            axis,
        ).near().gt(slabs.pass(other).far()),
    ensures
        slabs.spec_intersect(t_min, t_max) is None,
{
}

/// The parameter of a hit lies within `[t_min, t_max]`, and there the ray is
/// inside the closed cube.
pub proof fn lemma_hit_is_on_cube(slabs: Slabs, t_min: Scalar, t_max: Scalar)
    requires
        !t_min.is_nan(),
        !t_max.is_nan(),
        slabs.all_numbers(),
        slabs.spec_intersect(t_min, t_max) is Some,
    ensures
        t_min.le(slabs.spec_intersect(t_min, t_max)->0.t),
        slabs.spec_intersect(t_min, t_max)->0.t.le(t_max),
        slabs.inside_at(slabs.spec_intersect(t_min, t_max)->0.t),
{
}

/// Which face a hit lies on.
///
/// Where the ray enters some slab after `t_min`, it comes from outside: the
/// hit is where it enters the last slab it enters, on the face through which
/// it enters the slab of the first axis, in the order x, y, z, whose entry is
/// that late. Otherwise the ray began inside the cube: the hit is where it
/// leaves the first slab it leaves, on the face through which it leaves the
/// slab of the first axis whose exit is that early. Where `t_max` comes
/// before every exit the hit is at `t_max`, on no face, and Top is reported.
pub proof fn lemma_hit_face(slabs: Slabs, t_min: Scalar, t_max: Scalar)
    requires
        !t_min.is_nan(),
        !t_max.is_nan(),
        slabs.all_numbers(),
        slabs.spec_intersect(t_min, t_max) is Some,
    ensures
        ({
            let hit = slabs.spec_intersect(t_min, t_max)->0;
            let x = slabs.x;
            let y = slabs.y;
            let z = slabs.z;
            if x.near().gt(t_min) || y.near().gt(t_min) || z.near().gt(t_min) {
                hit.face == if x.near().same(hit.t) {
                    Face::entering(Axis::X, x.negative())
                } else if y.near().same(hit.t) {
                    Face::entering(Axis::Y, y.negative())
                } else {
                    Face::entering(Axis::Z, z.negative())
                }
            } else {
                hit.face == if x.far().lt(t_max) && x.far().same(hit.t) {
                    Face::leaving(Axis::X, x.negative())
                } else if y.far().lt(t_max) && y.far().same(hit.t) {
                    Face::leaving(Axis::Y, y.negative())
                } else if z.far().lt(t_max) && z.far().same(hit.t) {
                    Face::leaving(Axis::Z, z.negative())
                } else {
                    Face::Top
                }
            }
        }),
{
}

/// The normal of a hit from outside opposes the ray: the hit lies on an axis
/// whose slab the ray enters just there, and along that axis the normal is +1
/// where the ray travels towards smaller coordinates and -1 where it does
/// not; along the other two axes it is 0.
pub proof fn lemma_normal_of_entry_opposes_the_ray(slabs: Slabs, t_min: Scalar, t_max: Scalar)
    requires
        !t_min.is_nan(),
        !t_max.is_nan(),
        slabs.all_numbers(),
        slabs.spec_intersect(t_min, t_max) is Some,
        slabs.x.near().gt(t_min) || slabs.y.near().gt(t_min) || slabs.z.near().gt(t_min),
    ensures
        exists|axis: Axis|
            {
                let pass = #[trigger] slabs.pass(axis);
                let hit = slabs.spec_intersect(t_min, t_max)->0;
                let sign: int = if pass.negative() { 1 } else { -1 };
                &&& pass.near().same(hit.t)
                &&& hit.face == Face::entering(axis, pass.negative())
                &&& hit.face.spec_normal() == match axis {
                    Axis::X => (sign, 0int, 0int),
                    Axis::Y => (0int, sign, 0int),
                    Axis::Z => (0int, 0int, sign),
                }
            },
{
    lemma_hit_face(slabs, t_min, t_max);
    let hit = slabs.spec_intersect(t_min, t_max)->0;
    let axis = if slabs.x.near().same(hit.t) {
        Axis::X
    } else if slabs.y.near().same(hit.t) {
        Axis::Y
    } else {
        Axis::Z
    };
    lemma_entering_normal_opposes_the_ray(axis, slabs.pass(axis).negative());
    assert(slabs.pass(axis).near().same(hit.t));
}

impl HitRecord {
    /// The surface normal at the hit: the normal of the face.
    pub fn normal(&self) -> (n: (i8, i8, i8))
        ensures
            (n.0 as int, n.1 as int, n.2 as int) == self.face.spec_normal(),
    {
        self.face.normal()
    }
}

} // verus!
