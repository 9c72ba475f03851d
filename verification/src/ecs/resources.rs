//! Singletons shared across systems: the voxel render settings and the
//! held-key state of the free-fly camera.

use vstd::prelude::*;

use crate::scene::terrain::VoxelSettings;

verus! {

/// CPU-side voxel render settings (AO on/off), uploaded to the GPU on change.
pub struct VoxelSettingsRes(pub VoxelSettings);

/// The keys the camera reads; every other key is `Other`.
#[derive(Debug, Clone, Copy, PartialEq, Eq)]
pub enum KeyCode {
    KeyW,
    KeyS,
    KeyA,
    KeyD,
    Space,
    ShiftLeft,
    ShiftRight,
    ArrowLeft,
    ArrowRight,
    ArrowUp,
    ArrowDown,
    Other,
}

/// Held-key state for the free-fly camera, fed by keyboard events.
pub struct Input {
    pub forward: bool,
    pub backward: bool,
    pub left: bool,
    pub right: bool,
    pub up: bool,
    pub down: bool,
    pub look_left: bool,
    pub look_right: bool,
    pub look_up: bool,
    pub look_down: bool,
}

/// Whether a key is one of the camera controls.
pub open spec fn is_camera_key(code: KeyCode) -> bool {
    !(code is Other)
}

impl Input {
    /// No key held.
    pub open spec fn released() -> Input {
        Input {
            forward: false,
            backward: false,
            left: false,
            right: false,
            up: false,
            down: false,
            look_left: false,
            look_right: false,
            look_up: false,
            look_down: false,
        }
    }

    /// The state after key `code` went down (`pressed`) or up: the flag the
    /// key controls takes `pressed`, every other flag is kept.
    pub open spec fn with_key(self, code: KeyCode, pressed: bool) -> Input {
        match code {
            KeyCode::KeyW => Input { forward: pressed, ..self },
            KeyCode::KeyS => Input { backward: pressed, ..self },
            KeyCode::KeyA => Input { left: pressed, ..self },
            KeyCode::KeyD => Input { right: pressed, ..self },
            KeyCode::Space => Input { up: pressed, ..self },
            KeyCode::ShiftLeft => Input { down: pressed, ..self },
            KeyCode::ShiftRight => Input { down: pressed, ..self },
            KeyCode::ArrowLeft => Input { look_left: pressed, ..self },
            KeyCode::ArrowRight => Input { look_right: pressed, ..self },
            KeyCode::ArrowUp => Input { look_up: pressed, ..self },
            KeyCode::ArrowDown => Input { look_down: pressed, ..self },
            KeyCode::Other => self,
        }
    }

    /// Map a key to its movement/look flag. Returns `true` if the key was a
    /// camera control (so the caller knows it was consumed).
    pub fn set(&mut self, code: KeyCode, pressed: bool) -> (consumed: bool)
        ensures
            consumed == is_camera_key(code),
            *final(self) == old(self).with_key(code, pressed),
            is_camera_key(code) ==> flag(*final(self), controlled_flag(code)) == pressed,
            forall|k: int| 0 <= k < 10 && k != controlled_flag(code) ==> #[trigger] flag(*final(self), k) == flag(*old(self), k),
    {
        match code {
            KeyCode::KeyW => self.forward = pressed,
            KeyCode::KeyS => self.backward = pressed,
            KeyCode::KeyA => self.left = pressed,
            KeyCode::KeyD => self.right = pressed,
            KeyCode::Space => self.up = pressed,
            KeyCode::ShiftLeft => self.down = pressed,
            KeyCode::ShiftRight => self.down = pressed,
            KeyCode::ArrowLeft => self.look_left = pressed,
            KeyCode::ArrowRight => self.look_right = pressed,
            KeyCode::ArrowUp => self.look_up = pressed,
            KeyCode::ArrowDown => self.look_down = pressed,
            KeyCode::Other => return false,
        }
        true
    }
}

impl Default for Input {
    fn default() -> (r: Input)
        ensures
            r == Input::released(),
    {
        Input {
            forward: false,
            backward: false,
            left: false,
            right: false,
            up: false,
            down: false,
            look_left: false,
            look_right: false,
            look_up: false,
            look_down: false,
        }
    }
}

/// Key events compose as expected: repeating an event changes nothing more,
/// a later event for the same key overrides an earlier one, a press followed
/// by its release restores the held-key state, and a key that is not a camera
/// control changes nothing.
#[verifier::rlimit(100)]
pub proof fn lemma_key_events(s: Input, code: KeyCode, p1: bool, p2: bool)
    ensures
        s.with_key(code, p1).with_key(code, p1) == s.with_key(code, p1),
        s.with_key(code, p1).with_key(code, p2) == s.with_key(code, p2),
        s.with_key(code, false) == s ==> s.with_key(code, true).with_key(code, false) == s,
        !is_camera_key(code) ==> s.with_key(code, p1) == s,
{
    match code {
        KeyCode::KeyW => {},
        KeyCode::KeyS => {},
        KeyCode::KeyA => {},
        KeyCode::KeyD => {},
        KeyCode::Space => {},
        KeyCode::ShiftLeft => {},
        KeyCode::ShiftRight => {},
        KeyCode::ArrowLeft => {},
        KeyCode::ArrowRight => {},
        KeyCode::ArrowUp => {},
        KeyCode::ArrowDown => {},
        KeyCode::Other => {},
    }
}

/// Events for two different controls can be applied in either order.
#[verifier::rlimit(100)]
pub proof fn lemma_key_events_commute(s: Input, a: KeyCode, b: KeyCode, pa: bool, pb: bool)
    requires
        !(a == b),
        !((a is ShiftLeft || a is ShiftRight) && (b is ShiftLeft || b is ShiftRight)),
    ensures
        s.with_key(a, pa).with_key(b, pb) == s.with_key(b, pb).with_key(a, pa),
{
    match a {
        KeyCode::KeyW => { match b {KeyCode::KeyW => {}, KeyCode::KeyS => {}, KeyCode::KeyA => {}, KeyCode::KeyD => {}, KeyCode::Space => {}, KeyCode::ShiftLeft => {}, KeyCode::ShiftRight => {}, KeyCode::ArrowLeft => {}, KeyCode::ArrowRight => {}, KeyCode::ArrowUp => {}, KeyCode::ArrowDown => {}, KeyCode::Other => {},} },
        KeyCode::KeyS => { match b {KeyCode::KeyW => {}, KeyCode::KeyS => {}, KeyCode::KeyA => {}, KeyCode::KeyD => {}, KeyCode::Space => {}, KeyCode::ShiftLeft => {}, KeyCode::ShiftRight => {}, KeyCode::ArrowLeft => {}, KeyCode::ArrowRight => {}, KeyCode::ArrowUp => {}, KeyCode::ArrowDown => {}, KeyCode::Other => {},} },
        KeyCode::KeyA => { match b {KeyCode::KeyW => {}, KeyCode::KeyS => {}, KeyCode::KeyA => {}, KeyCode::KeyD => {}, KeyCode::Space => {}, KeyCode::ShiftLeft => {}, KeyCode::ShiftRight => {}, KeyCode::ArrowLeft => {}, KeyCode::ArrowRight => {}, KeyCode::ArrowUp => {}, KeyCode::ArrowDown => {}, KeyCode::Other => {},} },
        KeyCode::KeyD => { match b {KeyCode::KeyW => {}, KeyCode::KeyS => {}, KeyCode::KeyA => {}, KeyCode::KeyD => {}, KeyCode::Space => {}, KeyCode::ShiftLeft => {}, KeyCode::ShiftRight => {}, KeyCode::ArrowLeft => {}, KeyCode::ArrowRight => {}, KeyCode::ArrowUp => {}, KeyCode::ArrowDown => {}, KeyCode::Other => {},} },
        KeyCode::Space => { match b {KeyCode::KeyW => {}, KeyCode::KeyS => {}, KeyCode::KeyA => {}, KeyCode::KeyD => {}, KeyCode::Space => {}, KeyCode::ShiftLeft => {}, KeyCode::ShiftRight => {}, KeyCode::ArrowLeft => {}, KeyCode::ArrowRight => {}, KeyCode::ArrowUp => {}, KeyCode::ArrowDown => {}, KeyCode::Other => {},} },
        KeyCode::ShiftLeft => { match b {KeyCode::KeyW => {}, KeyCode::KeyS => {}, KeyCode::KeyA => {}, KeyCode::KeyD => {}, KeyCode::Space => {}, KeyCode::ShiftLeft => {}, KeyCode::ShiftRight => {}, KeyCode::ArrowLeft => {}, KeyCode::ArrowRight => {}, KeyCode::ArrowUp => {}, KeyCode::ArrowDown => {}, KeyCode::Other => {},} },
        KeyCode::ShiftRight => { match b {KeyCode::KeyW => {}, KeyCode::KeyS => {}, KeyCode::KeyA => {}, KeyCode::KeyD => {}, KeyCode::Space => {}, KeyCode::ShiftLeft => {}, KeyCode::ShiftRight => {}, KeyCode::ArrowLeft => {}, KeyCode::ArrowRight => {}, KeyCode::ArrowUp => {}, KeyCode::ArrowDown => {}, KeyCode::Other => {},} },
        KeyCode::ArrowLeft => { match b {KeyCode::KeyW => {}, KeyCode::KeyS => {}, KeyCode::KeyA => {}, KeyCode::KeyD => {}, KeyCode::Space => {}, KeyCode::ShiftLeft => {}, KeyCode::ShiftRight => {}, KeyCode::ArrowLeft => {}, KeyCode::ArrowRight => {}, KeyCode::ArrowUp => {}, KeyCode::ArrowDown => {}, KeyCode::Other => {},} },
        KeyCode::ArrowRight => { match b {KeyCode::KeyW => {}, KeyCode::KeyS => {}, KeyCode::KeyA => {}, KeyCode::KeyD => {}, KeyCode::Space => {}, KeyCode::ShiftLeft => {}, KeyCode::ShiftRight => {}, KeyCode::ArrowLeft => {}, KeyCode::ArrowRight => {}, KeyCode::ArrowUp => {}, KeyCode::ArrowDown => {}, KeyCode::Other => {},} },
        KeyCode::ArrowUp => { match b {KeyCode::KeyW => {}, KeyCode::KeyS => {}, KeyCode::KeyA => {}, KeyCode::KeyD => {}, KeyCode::Space => {}, KeyCode::ShiftLeft => {}, KeyCode::ShiftRight => {}, KeyCode::ArrowLeft => {}, KeyCode::ArrowRight => {}, KeyCode::ArrowUp => {}, KeyCode::ArrowDown => {}, KeyCode::Other => {},} },
        KeyCode::ArrowDown => { match b {KeyCode::KeyW => {}, KeyCode::KeyS => {}, KeyCode::KeyA => {}, KeyCode::KeyD => {}, KeyCode::Space => {}, KeyCode::ShiftLeft => {}, KeyCode::ShiftRight => {}, KeyCode::ArrowLeft => {}, KeyCode::ArrowRight => {}, KeyCode::ArrowUp => {}, KeyCode::ArrowDown => {}, KeyCode::Other => {},} },
        KeyCode::Other => { match b {KeyCode::KeyW => {}, KeyCode::KeyS => {}, KeyCode::KeyA => {}, KeyCode::KeyD => {}, KeyCode::Space => {}, KeyCode::ShiftLeft => {}, KeyCode::ShiftRight => {}, KeyCode::ArrowLeft => {}, KeyCode::ArrowRight => {}, KeyCode::ArrowUp => {}, KeyCode::ArrowDown => {}, KeyCode::Other => {},} },
    }
}

/// Index of the flag a camera key controls: forward, backward, left, right,
/// up, down, look left, look right, look up, look down (0 to 9); -1 for a key
/// that is no camera control.
pub open spec fn controlled_flag(code: KeyCode) -> int {
    match code {
        KeyCode::KeyW => 0,
        KeyCode::KeyS => 1,
        KeyCode::KeyA => 2,
        KeyCode::KeyD => 3,
        KeyCode::Space => 4,
        KeyCode::ShiftLeft => 5,
        KeyCode::ShiftRight => 5,
        KeyCode::ArrowLeft => 6,
        KeyCode::ArrowRight => 7,
        KeyCode::ArrowUp => 8,
        KeyCode::ArrowDown => 9,
        KeyCode::Other => -1,
    }
}

/// The held-key flags, numbered as in `controlled_flag`.
pub open spec fn flag(s: Input, k: int) -> bool {
    if k == 0 {
        s.forward
    } else if k == 1 {
        s.backward
    } else if k == 2 {
        s.left
    } else if k == 3 {
        s.right
    } else if k == 4 {
        s.up
    } else if k == 5 {
        s.down
    } else if k == 6 {
        s.look_left
    } else if k == 7 {
        s.look_right
    } else if k == 8 {
        s.look_up
    } else {
        s.look_down
    }
}

/// After a key event the flag that key controls (W forward, S backward,
/// A left, D right, Space up, either Shift down, the arrows look left, right,
/// up and down) holds exactly whether the key is pressed, and every other
/// flag is kept; a key that is no camera control changes no flag.
#[verifier::rlimit(100)]
pub proof fn lemma_key_sets_its_flag(s: Input, code: KeyCode, pressed: bool, k: int)
    requires
        0 <= k < 10,
    ensures
        k == controlled_flag(code) ==> flag(s.with_key(code, pressed), k) == pressed,
        k != controlled_flag(code) ==> flag(s.with_key(code, pressed), k) == flag(s, k),
        code is KeyW ==> s.with_key(code, pressed).forward == pressed,
{
    match code {
        KeyCode::KeyW => {},
        KeyCode::KeyS => {},
        KeyCode::KeyA => {},
        KeyCode::KeyD => {},
        KeyCode::Space => {},
        KeyCode::ShiftLeft => {},
        KeyCode::ShiftRight => {},
        KeyCode::ArrowLeft => {},
        KeyCode::ArrowRight => {},
        KeyCode::ArrowUp => {},
        KeyCode::ArrowDown => {},
        KeyCode::Other => {},
    }
}

} // verus!
