use minecraft_diorama::face::{Axis, Face, UvLayout};

fn all_faces() -> Vec<Face> {
    vec![Face::Top, Face::Bottom, Face::North, Face::South, Face::East, Face::West]
}

#[test]
fn face_ids_follow_the_table() {
    assert_eq!(Face::Top.id(), 0);
    assert_eq!(Face::Bottom.id(), 1);
    assert_eq!(Face::North.id(), 2);
    assert_eq!(Face::South.id(), 3);
    assert_eq!(Face::East.id(), 4);
    assert_eq!(Face::West.id(), 5);
}

#[test]
fn from_id_inverts_id() {
    for face in all_faces() {
        assert_eq!(Face::from_id(face.id()), Some(face));
    }
    assert_eq!(Face::from_id(6), None);
    assert_eq!(Face::from_id(usize::MAX), None);
}

#[test]
fn normals_follow_the_table() {
    assert_eq!(Face::Top.normal(), (0, 1, 0));
    assert_eq!(Face::Bottom.normal(), (0, -1, 0));
    assert_eq!(Face::North.normal(), (0, 0, -1));
    assert_eq!(Face::South.normal(), (0, 0, 1));
    assert_eq!(Face::East.normal(), (1, 0, 0));
    assert_eq!(Face::West.normal(), (-1, 0, 0));
}

#[test]
fn normals_are_axis_aligned_unit_vectors() {
    for face in all_faces() {
        let (x, y, z) = face.normal();
        assert_eq!(x * x + y * y + z * z, 1);
        match face.axis() {
            Axis::X => assert!(x != 0),
            Axis::Y => assert!(y != 0),
            Axis::Z => assert!(z != 0),
        }
    }
}

#[test]
fn normals_tell_faces_apart() {
    for a in all_faces() {
        for b in all_faces() {
            assert_eq!(a.normal() == b.normal(), a == b);
        }
    }
}

#[test]
fn axes_of_faces() {
    assert_eq!(Face::Top.axis(), Axis::Y);
    assert_eq!(Face::Bottom.axis(), Axis::Y);
    assert_eq!(Face::North.axis(), Axis::Z);
    assert_eq!(Face::South.axis(), Axis::Z);
    assert_eq!(Face::East.axis(), Axis::X);
    assert_eq!(Face::West.axis(), Axis::X);
}

#[test]
fn entering_faces() {
    assert_eq!(Face::entering(Axis::X, true), Face::East);
    assert_eq!(Face::entering(Axis::X, false), Face::West);
    assert_eq!(Face::entering(Axis::Y, true), Face::Top);
    assert_eq!(Face::entering(Axis::Y, false), Face::Bottom);
    assert_eq!(Face::entering(Axis::Z, true), Face::South);
    assert_eq!(Face::entering(Axis::Z, false), Face::North);
}

#[test]
fn leaving_faces_are_opposite_the_entering_ones() {
    assert_eq!(Face::leaving(Axis::X, true), Face::West);
    assert_eq!(Face::leaving(Axis::X, false), Face::East);
    assert_eq!(Face::leaving(Axis::Y, true), Face::Bottom);
    assert_eq!(Face::leaving(Axis::Y, false), Face::Top);
    assert_eq!(Face::leaving(Axis::Z, true), Face::North);
    assert_eq!(Face::leaving(Axis::Z, false), Face::South);
    for axis in [Axis::X, Axis::Y, Axis::Z] {
        for negative in [false, true] {
            let e = Face::entering(axis, negative).normal();
            let l = Face::leaving(axis, negative).normal();
            assert_eq!((e.0, e.1, e.2), (-l.0, -l.1, -l.2));
        }
    }
}

#[test]
fn entering_normal_opposes_the_ray() {
    for axis in [Axis::X, Axis::Y, Axis::Z] {
        for negative in [false, true] {
            let sign = if negative { 1 } else { -1 };
            let expected = match axis {
                Axis::X => (sign, 0, 0),
                Axis::Y => (0, sign, 0),
                Axis::Z => (0, 0, sign),
            };
            assert_eq!(Face::entering(axis, negative).normal(), expected);
            assert_eq!(Face::entering(axis, negative).axis(), axis);
        }
    }
}

#[test]
fn uv_layouts_follow_the_table() {
    let layout = |u_axis, u_flipped, v_axis, v_flipped| UvLayout { u_axis, u_flipped, v_axis, v_flipped };
    assert_eq!(Face::Top.uv_layout(), layout(Axis::X, false, Axis::Z, false));
    assert_eq!(Face::Bottom.uv_layout(), layout(Axis::X, false, Axis::Z, true));
    assert_eq!(Face::North.uv_layout(), layout(Axis::X, false, Axis::Y, false));
    assert_eq!(Face::South.uv_layout(), layout(Axis::X, true, Axis::Y, false));
    assert_eq!(Face::East.uv_layout(), layout(Axis::Z, false, Axis::Y, false));
    assert_eq!(Face::West.uv_layout(), layout(Axis::Z, true, Axis::Y, false));
}

#[test]
fn uv_axes_lie_in_the_face() {
    for face in all_faces() {
        let layout = face.uv_layout();
        assert_ne!(layout.u_axis, layout.v_axis);
        assert_ne!(layout.u_axis, face.axis());
        assert_ne!(layout.v_axis, face.axis());
    }
}
