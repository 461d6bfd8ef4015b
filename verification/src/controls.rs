//! The interactive camera's input state: which keys are held, and whether the
//! mouse is steering.

use vstd::prelude::*;
use crate::scalar::Scalar;

verus! {

/// The bit pattern of 89.0, the steepest pitch in degrees.
pub const PITCH_LIMIT_BITS: u64 = 0x4056_4000_0000_0000;

/// The bit pattern of -89.0.
pub const NEGATIVE_PITCH_LIMIT_BITS: u64 = 0xc056_4000_0000_0000;

/// A key that moves the camera.
#[derive(Clone, Copy, Debug, PartialEq, Eq, Structural)]
pub enum MoveKey {
    Forward,
    Backward,
    Left,
    Right,
    Up,
    Down,
}

/// Which of the keys that move the camera are held down.
#[derive(Clone, Copy, Debug, PartialEq, Eq, Structural)]
pub struct HeldKeys {
    pub forward: bool,
    pub backward: bool,
    pub left: bool,
    pub right: bool,
    pub up: bool,
    pub down: bool,
}

/// A position of the cursor in the window.
#[derive(Clone, Copy, Debug, PartialEq, Eq, Structural)]
pub struct Cursor {
    pub x: Scalar,
    pub y: Scalar,
}

/// Whether the mouse steers the camera, and where the cursor last was while it
/// did.
#[derive(Clone, Copy, Debug, PartialEq, Eq, Structural)]
pub struct MouseLook {
    pub grabbed: bool,
    pub last: Option<Cursor>,
}

impl HeldKeys {
    /// The keys with `key` pressed or released and the others as they are.
    pub open spec fn with_key(self, key: MoveKey, pressed: bool) -> HeldKeys {
        match key {
            MoveKey::Forward => HeldKeys { forward: pressed, ..self },
            MoveKey::Backward => HeldKeys { backward: pressed, ..self },
            MoveKey::Left => HeldKeys { left: pressed, ..self },
            MoveKey::Right => HeldKeys { right: pressed, ..self },
            MoveKey::Up => HeldKeys { up: pressed, ..self },
            MoveKey::Down => HeldKeys { down: pressed, ..self },
        }
    }

    /// No key is held.
    pub fn new() -> (keys: HeldKeys)
        ensures
            keys == (HeldKeys {
                forward: false,
                backward: false,
                left: false,
                right: false,
                up: false,
                down: false,
            }),
    {
        HeldKeys {
            forward: false,
            backward: false,
            left: false,
            right: false,
            up: false,
            down: false,
        }
    }

    /// Takes note that `key` was pressed or released.
    pub fn process_keyboard(&mut self, key: MoveKey, pressed: bool)
        ensures
            *final(self) == old(self).with_key(key, pressed),
    {
        match key {
            MoveKey::Forward => self.forward = pressed,
            MoveKey::Backward => self.backward = pressed,
            MoveKey::Left => self.left = pressed,
            MoveKey::Right => self.right = pressed,
            MoveKey::Up => self.up = pressed,
            MoveKey::Down => self.down = pressed,
        }
    }
}

impl MouseLook {
    /// The mouse does not steer.
    pub fn new() -> (look: MouseLook)
        ensures
            look == (MouseLook { grabbed: false, last: None }),
    {
        MouseLook { grabbed: false, last: None }
    }

    /// Takes note that the steering button was pressed or released. The mouse
    /// steers while the button is held; on release the last position is
    /// forgotten.
    pub fn button(&mut self, pressed: bool)
        ensures
            final(self).grabbed == pressed,
            final(self).last == if pressed { old(self).last } else { None },
    {
        self.grabbed = pressed;
        if !pressed {
            self.last = None;
        }
    }

    /// Takes note that the cursor moved to `to`, and returns the position it
    /// moved from where that move turns the camera: while the mouse steers,
    /// from its second position on.
    pub fn cursor_moved(&mut self, to: Cursor) -> (from: Option<Cursor>)
        ensures
            final(self).grabbed == old(self).grabbed,
            final(self).last == if old(self).grabbed { Some(to) } else { old(self).last },
            from == if old(self).grabbed { old(self).last } else { None },
    {
        if self.grabbed {
            let from = self.last;
            self.last = Some(to);
            from
        } else {
            None
        }
    }
}

/// The pitch kept within 89 degrees of level.
pub open spec fn spec_clamp_pitch(pitch: Scalar) -> Scalar {
    pitch.spec_clamp(
        Scalar { bits: NEGATIVE_PITCH_LIMIT_BITS },
        Scalar { bits: PITCH_LIMIT_BITS },
    )
}

/// Keeps a pitch in degrees within 89 degrees of level, so that the camera
/// never looks straight up or down.
pub fn clamp_pitch(pitch: Scalar) -> (clamped: Scalar)
    ensures
        clamped == spec_clamp_pitch(pitch),
{
    pitch.clamp(Scalar::from_bits(NEGATIVE_PITCH_LIMIT_BITS), Scalar::from_bits(PITCH_LIMIT_BITS))
}

} // verus!
