//! The six faces of an axis-aligned cube, and the tables keyed by them.

use vstd::prelude::*;

verus! {

/// A coordinate axis.
#[derive(Clone, Copy, Debug, PartialEq, Eq, Structural)]
pub enum Axis {
    X,
    Y,
    Z,
}

/// A face of a cube. The order of the variants is the order of the face ids.
#[derive(Clone, Copy, Debug, PartialEq, Eq, Structural)]
pub enum Face {
    Top,
    Bottom,
    North,
    South,
    East,
    West,
}

/// How the texture coordinates of a face are read off a point of the cube.
///
/// The point is given by its fractional position inside the cube, a number in
/// `[0, 1]` along each axis. `u` is that fraction along `u_axis`, or one minus
/// it when `u_flipped`; `v` likewise.
#[derive(Clone, Copy, Debug, PartialEq, Eq, Structural)]
pub struct UvLayout {
    pub u_axis: Axis,
    pub u_flipped: bool,
    pub v_axis: Axis,
    pub v_flipped: bool,
}

impl Face {
    pub open spec fn spec_id(self) -> int {
        match self {
            Face::Top => 0,
            Face::Bottom => 1,
            Face::North => 2,
            Face::South => 3,
            Face::East => 4,
            Face::West => 5,
        }
    }

    /// The outward unit normal.
    pub open spec fn spec_normal(self) -> (int, int, int) {
        match self {
            Face::Top => (0, 1, 0),
            Face::Bottom => (0, -1, 0),
            Face::North => (0, 0, -1),
            Face::South => (0, 0, 1),
            Face::East => (1, 0, 0),
            Face::West => (-1, 0, 0),
        }
    }

    /// The axis that the face is perpendicular to.
    pub open spec fn spec_axis(self) -> Axis {
        match self {
            Face::Top | Face::Bottom => Axis::Y,
            Face::North | Face::South => Axis::Z,
            Face::East | Face::West => Axis::X,
        }
    }

    /// The face through which a ray enters the slab of `axis`, where
    /// `negative` says that the ray travels towards smaller coordinates on
    /// that axis: the face whose outward normal opposes the ray. A ray that
    /// travels towards smaller coordinates enters through the face on the
    /// side of the larger ones.
    pub open spec fn spec_entering(axis: Axis, negative: bool) -> Face {
        match axis {
            Axis::X => if negative { Face::East } else { Face::West },
            Axis::Y => if negative { Face::Top } else { Face::Bottom },
            Axis::Z => if negative { Face::South } else { Face::North },
        }
    }

    /// The face through which a ray leaves the slab of `axis`: the one
    /// opposite [`Face::spec_entering`], whose outward normal points along the
    /// ray.
    pub open spec fn spec_leaving(axis: Axis, negative: bool) -> Face {
        Face::spec_entering(axis, !negative)
    }

    pub open spec fn spec_uv_layout(self) -> UvLayout {
        match self {
            Face::Top => UvLayout { u_axis: Axis::X, u_flipped: false, v_axis: Axis::Z, v_flipped: false },
            Face::Bottom => UvLayout { u_axis: Axis::X, u_flipped: false, v_axis: Axis::Z, v_flipped: true },
            Face::North => UvLayout { u_axis: Axis::X, u_flipped: false, v_axis: Axis::Y, v_flipped: false },
            Face::South => UvLayout { u_axis: Axis::X, u_flipped: true, v_axis: Axis::Y, v_flipped: false },
            Face::East => UvLayout { u_axis: Axis::Z, u_flipped: false, v_axis: Axis::Y, v_flipped: false },
            Face::West => UvLayout { u_axis: Axis::Z, u_flipped: true, v_axis: Axis::Y, v_flipped: false },
        }
    }

    /// The face id, from 0 for Top to 5 for West.
    pub fn id(self) -> (i: usize)
        ensures
            i == self.spec_id(),
            i < 6,
    {
        match self {
            Face::Top => 0,
            Face::Bottom => 1,
            Face::North => 2,
            Face::South => 3,
            Face::East => 4,
            Face::West => 5,
        }
    }

    /// The face with the given id, if there is one.
    pub fn from_id(i: usize) -> (face: Option<Face>)
        ensures
            i < 6 ==> face is Some && face->0.spec_id() == i,
            i >= 6 ==> face is None,
    {
        if i == 0 {
            Some(Face::Top)
        } else if i == 1 {
            Some(Face::Bottom)
        } else if i == 2 {
            Some(Face::North)
        } else if i == 3 {
            Some(Face::South)
        } else if i == 4 {
            Some(Face::East)
        } else if i == 5 {
            Some(Face::West)
        } else {
            None
        }
    }

    /// The outward unit normal, by its three components.
    pub fn normal(self) -> (n: (i8, i8, i8))
        ensures
            (n.0 as int, n.1 as int, n.2 as int) == self.spec_normal(),
    {
        match self {
            Face::Top => (0, 1, 0),
            Face::Bottom => (0, -1, 0),
            Face::North => (0, 0, -1),
            Face::South => (0, 0, 1),
            Face::East => (1, 0, 0),
            Face::West => (-1, 0, 0),
        }
    }

    /// The axis that the face is perpendicular to.
    #[verifier::when_used_as_spec(spec_axis)]
    pub fn axis(self) -> (a: Axis)
        ensures
            a == self.spec_axis(),
    {
        match self {
            Face::Top | Face::Bottom => Axis::Y,
            Face::North | Face::South => Axis::Z,
            Face::East | Face::West => Axis::X,
        }
    }

    /// The face through which a ray enters the slab of `axis`.
    #[verifier::when_used_as_spec(spec_entering)]
    pub fn entering(axis: Axis, negative: bool) -> (face: Face)
        ensures
            face == Face::spec_entering(axis, negative),
    {
        match axis {
            Axis::X => if negative { Face::East } else { Face::West },
            Axis::Y => if negative { Face::Top } else { Face::Bottom },
            Axis::Z => if negative { Face::South } else { Face::North },
        }
    }

    /// The face through which a ray leaves the slab of `axis`.
    #[verifier::when_used_as_spec(spec_leaving)]
    pub fn leaving(axis: Axis, negative: bool) -> (face: Face)
        ensures
            face == Face::spec_leaving(axis, negative),
    {
        Face::entering(axis, !negative)
    }

    /// Which fractions of a point give the texture coordinates on this face.
    #[verifier::when_used_as_spec(spec_uv_layout)]
    pub fn uv_layout(self) -> (layout: UvLayout)
        ensures
            layout == self.spec_uv_layout(),
    {
        match self {
            Face::Top => UvLayout { u_axis: Axis::X, u_flipped: false, v_axis: Axis::Z, v_flipped: false },
            Face::Bottom => UvLayout { u_axis: Axis::X, u_flipped: false, v_axis: Axis::Z, v_flipped: true },
            Face::North => UvLayout { u_axis: Axis::X, u_flipped: false, v_axis: Axis::Y, v_flipped: false },
            Face::South => UvLayout { u_axis: Axis::X, u_flipped: true, v_axis: Axis::Y, v_flipped: false },
            Face::East => UvLayout { u_axis: Axis::Z, u_flipped: false, v_axis: Axis::Y, v_flipped: false },
            Face::West => UvLayout { u_axis: Axis::Z, u_flipped: true, v_axis: Axis::Y, v_flipped: false },
        }
    }
}

/// The normal of every face is one of the six axis-aligned unit vectors: its
/// components are -1, 0 or 1, exactly one of them is not 0, and that one lies
/// on the axis of the face.
pub proof fn lemma_normal_is_axis_unit(face: Face)
    ensures
        ({
            let (x, y, z) = face.spec_normal();
            &&& -1 <= x <= 1 && -1 <= y <= 1 && -1 <= z <= 1
            &&& x * x + y * y + z * z == 1
            &&& (x != 0 <==> face.spec_axis() == Axis::X)
            &&& (y != 0 <==> face.spec_axis() == Axis::Y)
            &&& (z != 0 <==> face.spec_axis() == Axis::Z)
        }),
{
}

/// Face, face id and normal determine one another: two faces with the same id,
/// or with the same normal, are the same face, and every id below six belongs
/// to a face.
pub proof fn lemma_face_id_and_normal_agree(a: Face, b: Face)
    ensures
        0 <= a.spec_id() < 6,
        a.spec_id() == b.spec_id() <==> a == b,
        a.spec_normal() == b.spec_normal() <==> a == b,
{
}

/// The normal of the face through which a ray enters a slab opposes the ray:
/// along the axis of the slab it is +1 where the ray travels towards smaller
/// coordinates and -1 where it does not, and it is 0 along the other two
/// axes. The normal of the face through which the ray leaves points the other
/// way.
pub proof fn lemma_entering_normal_opposes_the_ray(axis: Axis, negative: bool)
    ensures
        ({
            let e = Face::spec_entering(axis, negative).spec_normal();
            let l = Face::spec_leaving(axis, negative).spec_normal();
            let sign: int = if negative { 1 } else { -1 };
            &&& e == match axis {
                Axis::X => (sign, 0int, 0int),
                Axis::Y => (0int, sign, 0int),
                Axis::Z => (0int, 0int, sign),
            }
            &&& l == match axis {
                Axis::X => (-sign, 0int, 0int),
                Axis::Y => (0int, -sign, 0int),
                Axis::Z => (0int, 0int, -sign),
            }
        }),
{
}

/// The two faces of an axis are one the entry and one the exit, both lie on
/// that axis, and their normals are opposite.
pub proof fn lemma_entering_and_leaving_are_opposite(axis: Axis, negative: bool)
    ensures
        Face::spec_entering(axis, negative).spec_axis() == axis,
        Face::spec_leaving(axis, negative).spec_axis() == axis,
        Face::spec_entering(axis, negative) != Face::spec_leaving(axis, negative),
        ({
            let e = Face::spec_entering(axis, negative).spec_normal();
            let l = Face::spec_leaving(axis, negative).spec_normal();
            e.0 == -l.0 && e.1 == -l.1 && e.2 == -l.2
        }),
{
}

/// The texture coordinates of a face are read along the two axes that lie in
/// the face.
pub proof fn lemma_uv_axes_span_face(face: Face)
    ensures
        face.spec_uv_layout().u_axis != face.spec_uv_layout().v_axis,
        face.spec_uv_layout().u_axis != face.spec_axis(),
        face.spec_uv_layout().v_axis != face.spec_axis(),
{
}

} // verus!
