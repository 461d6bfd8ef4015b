use minecraft_diorama::controls::{
    clamp_pitch, Cursor, HeldKeys, MouseLook, MoveKey, NEGATIVE_PITCH_LIMIT_BITS, PITCH_LIMIT_BITS,
};
use minecraft_diorama::scalar::Scalar;

fn s(x: f64) -> Scalar {
    Scalar::from_bits(x.to_bits())
}

fn at(x: f64, y: f64) -> Cursor {
    Cursor { x: s(x), y: s(y) }
}

#[test]
fn no_key_is_held_at_first() {
    let keys = HeldKeys::new();
    assert!(!keys.forward && !keys.backward && !keys.left && !keys.right && !keys.up && !keys.down);
}

#[test]
fn each_key_sets_its_own_flag() {
    let all = [MoveKey::Forward, MoveKey::Backward, MoveKey::Left, MoveKey::Right, MoveKey::Up, MoveKey::Down];
    for (i, key) in all.iter().enumerate() {
        let mut keys = HeldKeys::new();
        keys.process_keyboard(*key, true);
        let flags = [keys.forward, keys.backward, keys.left, keys.right, keys.up, keys.down];
        for (j, flag) in flags.iter().enumerate() {
            assert_eq!(*flag, i == j);
        }
        keys.process_keyboard(*key, false);
        assert_eq!(keys, HeldKeys::new());
    }
}

#[test]
fn keys_are_held_together() {
    let mut keys = HeldKeys::new();
    keys.process_keyboard(MoveKey::Forward, true);
    keys.process_keyboard(MoveKey::Up, true);
    keys.process_keyboard(MoveKey::Forward, true);
    keys.process_keyboard(MoveKey::Left, false);
    assert_eq!(keys, HeldKeys { forward: true, up: true, ..HeldKeys::new() });
    keys.process_keyboard(MoveKey::Forward, false);
    assert_eq!(keys, HeldKeys { up: true, ..HeldKeys::new() });
}

#[test]
fn mouse_does_not_steer_until_the_button_is_held() {
    let mut look = MouseLook::new();
    assert_eq!(look.cursor_moved(at(10.0, 10.0)), None);
    assert_eq!(look.cursor_moved(at(20.0, 10.0)), None);
    assert_eq!(look, MouseLook::new());
}

#[test]
fn mouse_steers_from_the_second_position_on() {
    let mut look = MouseLook::new();
    look.button(true);
    assert_eq!(look.cursor_moved(at(10.0, 10.0)), None);
    assert_eq!(look.cursor_moved(at(13.0, 9.0)), Some(at(10.0, 10.0)));
    assert_eq!(look.cursor_moved(at(13.0, 9.0)), Some(at(13.0, 9.0)));
    assert_eq!(look.cursor_moved(at(0.0, 0.0)), Some(at(13.0, 9.0)));
}

#[test]
fn release_forgets_the_last_position() {
    let mut look = MouseLook::new();
    look.button(true);
    look.cursor_moved(at(10.0, 10.0));
    look.button(false);
    assert_eq!(look, MouseLook::new());
    assert_eq!(look.cursor_moved(at(50.0, 50.0)), None);
    look.button(true);
    assert_eq!(look.cursor_moved(at(60.0, 60.0)), None);
    assert_eq!(look.cursor_moved(at(61.0, 60.0)), Some(at(60.0, 60.0)));
}

#[test]
fn pressing_again_keeps_the_last_position() {
    let mut look = MouseLook::new();
    look.button(true);
    look.cursor_moved(at(10.0, 10.0));
    look.button(true);
    assert_eq!(look.cursor_moved(at(11.0, 10.0)), Some(at(10.0, 10.0)));
}

#[test]
fn pitch_limits_are_89_degrees() {
    assert_eq!(PITCH_LIMIT_BITS, 89.0f64.to_bits());
    assert_eq!(NEGATIVE_PITCH_LIMIT_BITS, (-89.0f64).to_bits());
}

#[test]
fn pitch_is_clamped_as_doubles_are() {
    for pitch in [-1e9, -90.0, -89.00000000000001, -89.0, -30.0, -0.0, 0.0, 45.5, 88.99999999999999, 89.0, 89.00000000000001, 120.0, f64::INFINITY, f64::NEG_INFINITY] {
        assert_eq!(clamp_pitch(s(pitch)).to_bits(), pitch.clamp(-89.0, 89.0).to_bits(), "{}", pitch);
    }
    assert!(clamp_pitch(s(f64::NAN)).is_nan());
}
