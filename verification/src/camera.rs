//! Keyboard state of the camera controller.
//!
//! The camera is either free (flown with the keyboard) or locked behind the
//! ship. `V` switches between the two; while free, the movement keys are held or
//! released.

use crate::keyboard::KeyCode;
use vstd::prelude::*;

verus! {

/// Which movement keys of the free camera are held.
#[derive(Clone, Copy, Debug, PartialEq, Eq, Structural)]
pub struct Movement {
    pub forward: bool,
    pub backward: bool,
    pub left: bool,
    pub right: bool,
    pub up: bool,
    pub down: bool,
}

/// No movement key held.
pub open spec fn idle_movement() -> Movement {
    Movement { forward: false, backward: false, left: false, right: false, up: false, down: false }
}

/// The keys that move the free camera.
pub open spec fn is_movement_key(key: KeyCode) -> bool {
    match key {
        KeyCode::KeyW | KeyCode::ArrowUp | KeyCode::KeyS | KeyCode::ArrowDown | KeyCode::KeyA
        | KeyCode::ArrowLeft | KeyCode::KeyD | KeyCode::ArrowRight | KeyCode::Space
        | KeyCode::ShiftLeft => true,
        _ => false,
    }
}

/// Whether a key event switches between the free and the locked camera.
pub open spec fn toggles_free(key: KeyCode, pressed: bool) -> bool {
    key == KeyCode::KeyV && pressed
}

/// The free flag after a key event.
pub open spec fn free_after(free: bool, key: KeyCode, pressed: bool) -> bool {
    if toggles_free(key, pressed) {
        !free
    } else {
        free
    }
}

/// The held movement keys after a key event: leaving the free mode releases them
/// all; in the free mode a movement key is held while pressed.
pub open spec fn movement_after(mv: Movement, free: bool, key: KeyCode, pressed: bool) -> Movement {
    let base = if toggles_free(key, pressed) && free {
        idle_movement()
    } else {
        mv
    };
    if !free_after(free, key, pressed) {
        base
    } else {
        match key {
            KeyCode::KeyW | KeyCode::ArrowUp => Movement { forward: pressed, ..base },
            KeyCode::KeyS | KeyCode::ArrowDown => Movement { backward: pressed, ..base },
            KeyCode::KeyA | KeyCode::ArrowLeft => Movement { left: pressed, ..base },
            KeyCode::KeyD | KeyCode::ArrowRight => Movement { right: pressed, ..base },
            KeyCode::Space => Movement { up: pressed, ..base },
            KeyCode::ShiftLeft => Movement { down: pressed, ..base },
            _ => base,
        }
    }
}

/// Whether the camera consumes a key event: a movement key while free.
pub open spec fn camera_handles(free: bool, key: KeyCode, pressed: bool) -> bool {
    free_after(free, key, pressed) && is_movement_key(key)
}

/// Whether the movement key `key` is held in `mv`.
pub open spec fn key_held(mv: Movement, key: KeyCode) -> bool {
    match key {
        KeyCode::KeyW | KeyCode::ArrowUp => mv.forward,
        KeyCode::KeyS | KeyCode::ArrowDown => mv.backward,
        KeyCode::KeyA | KeyCode::ArrowLeft => mv.left,
        KeyCode::KeyD | KeyCode::ArrowRight => mv.right,
        KeyCode::Space => mv.up,
        KeyCode::ShiftLeft => mv.down,
        _ => false,
    }
}

/// Pressing `V` twice brings the camera back to its mode, with every movement
/// key released.
pub proof fn lemma_double_toggle(mv: Movement, free: bool)
    ensures
        free_after(free_after(free, KeyCode::KeyV, true), KeyCode::KeyV, true) == free,
        movement_after(
            movement_after(mv, free, KeyCode::KeyV, true),
            free_after(free, KeyCode::KeyV, true),
            KeyCode::KeyV,
            true,
        ) == idle_movement(),
{
}

/// A locked camera ignores every key event other than pressing `V`: it stays
/// locked, keeps its held keys and consumes nothing.
pub proof fn lemma_locked_ignores_keys(mv: Movement, key: KeyCode, pressed: bool)
    requires
        !toggles_free(key, pressed),
    ensures
        free_after(false, key, pressed) == false,
        movement_after(mv, false, key, pressed) == mv,
        !camera_handles(false, key, pressed),
{
}

/// In the free mode, pressing and then releasing a movement key that was not
/// held leaves the held keys as they were, and both events are consumed.
pub proof fn lemma_press_release(mv: Movement, key: KeyCode)
    requires
        is_movement_key(key),
        !key_held(mv, key),
    ensures
        camera_handles(true, key, true),
        camera_handles(true, key, false),
        free_after(true, key, true),
        movement_after(movement_after(mv, true, key, true), true, key, false) == mv,
{
}

/// Only pressing `V` switches the camera between free and locked: pressing it
/// flips the mode, and every other key event (any other key, or releasing `V`)
/// keeps the mode.
pub proof fn lemma_only_v_switches_mode(free: bool, key: KeyCode, pressed: bool)
    ensures
        toggles_free(key, pressed) <==> (key == KeyCode::KeyV && pressed),
        key == KeyCode::KeyV && pressed ==> free_after(free, key, pressed) == !free,
        !(key == KeyCode::KeyV && pressed) ==> free_after(free, key, pressed) == free,
{
}

/// Keys that are neither movement keys nor a press of `V` leave the held keys
/// as they were, and the camera never consumes them.
pub proof fn lemma_other_keys_keep_movement(mv: Movement, free: bool, key: KeyCode, pressed: bool)
    requires
        !(key == KeyCode::KeyV && pressed),
        key != KeyCode::KeyW,
        key != KeyCode::ArrowUp,
        key != KeyCode::KeyS,
        key != KeyCode::ArrowDown,
        key != KeyCode::KeyA,
        key != KeyCode::ArrowLeft,
        key != KeyCode::KeyD,
        key != KeyCode::ArrowRight,
        key != KeyCode::Space,
        key != KeyCode::ShiftLeft,
    ensures
        movement_after(mv, free, key, pressed) == mv,
        !camera_handles(free, key, pressed),
{
}

/// Keyboard state of the camera.
#[derive(Debug)]
pub struct CameraController {
    movement: Movement,
    is_free: bool,
}

impl CameraController {
    /// The held movement keys.
    pub closed spec fn held(&self) -> Movement {
        self.movement
    }

    /// Whether the camera is free.
    pub closed spec fn free(&self) -> bool {
        self.is_free
    }

    /// A controller with no movement key held.
    pub fn new(is_free: bool) -> (r: Self)
        ensures
            r.free() == is_free,
            r.held() == idle_movement(),
    {
        CameraController {
            movement: Movement {
                forward: false,
                backward: false,
                left: false,
                right: false,
                up: false,
                down: false,
            },
            is_free: is_free,
        }
    }

    /// Applies a key event. Returns whether the camera consumed it.
    pub fn handle_key(&mut self, key: KeyCode, pressed: bool) -> (handled: bool)
        ensures
            final(self).free() == free_after(old(self).free(), key, pressed),
            final(self).held() == movement_after(old(self).held(), old(self).free(), key, pressed),
            handled == camera_handles(old(self).free(), key, pressed),
            key == KeyCode::KeyV && pressed ==> final(self).free() == !old(self).free(),
            !(key == KeyCode::KeyV && pressed) ==> final(self).free() == old(self).free(),
            handled ==> final(self).free(),
            !(key == KeyCode::KeyV && pressed || key == KeyCode::KeyW || key == KeyCode::ArrowUp
                || key == KeyCode::KeyS || key == KeyCode::ArrowDown || key == KeyCode::KeyA
                || key == KeyCode::ArrowLeft || key == KeyCode::KeyD || key == KeyCode::ArrowRight
                || key == KeyCode::Space || key == KeyCode::ShiftLeft) ==> final(self).held()
                == old(self).held() && !handled,
            !old(self).free() && !(key == KeyCode::KeyV && pressed) ==> final(self).held()
                == old(self).held() && !handled,
            old(self).free() && key == KeyCode::KeyV && pressed ==> !final(self).held().forward
                && !final(self).held().backward && !final(self).held().left
                && !final(self).held().right && !final(self).held().up && !final(self).held().down
                && !handled,
            old(self).free() && (key == KeyCode::KeyW || key == KeyCode::ArrowUp) ==> handled
                && final(self).held() == (Movement { forward: pressed, ..old(self).held() }),
            old(self).free() && (key == KeyCode::KeyS || key == KeyCode::ArrowDown) ==> handled
                && final(self).held() == (Movement { backward: pressed, ..old(self).held() }),
            old(self).free() && (key == KeyCode::KeyA || key == KeyCode::ArrowLeft) ==> handled
                && final(self).held() == (Movement { left: pressed, ..old(self).held() }),
            old(self).free() && (key == KeyCode::KeyD || key == KeyCode::ArrowRight) ==> handled
                && final(self).held() == (Movement { right: pressed, ..old(self).held() }),
            old(self).free() && key == KeyCode::Space ==> handled && final(self).held() == (
            Movement { up: pressed, ..old(self).held() }),
            old(self).free() && key == KeyCode::ShiftLeft ==> handled && final(self).held() == (
            Movement { down: pressed, ..old(self).held() }),
    {
        if self.leaves_free_mode(key, pressed) {
            // Release every key, so that none stays held while the camera is locked.
            self.reset_active_changes();
        }
        if key == KeyCode::KeyV && pressed {
            self.is_free = !self.is_free;
        }
        if self.is_free {
            match key {
                KeyCode::KeyW | KeyCode::ArrowUp => {
                    self.movement.forward = pressed;
                    return true;
                },
                KeyCode::KeyS | KeyCode::ArrowDown => {
                    self.movement.backward = pressed;
                    return true;
                },
                KeyCode::KeyA | KeyCode::ArrowLeft => {
                    self.movement.left = pressed;
                    return true;
                },
                KeyCode::KeyD | KeyCode::ArrowRight => {
                    self.movement.right = pressed;
                    return true;
                },
                KeyCode::Space => {
                    self.movement.up = pressed;
                    return true;
                },
                KeyCode::ShiftLeft => {
                    self.movement.down = pressed;
                    return true;
                },
                _ => {
                    return false;
                },
            }
        } else {
            return false;
        }
    }

    /// Whether a key event takes the camera out of the free mode, which releases
    /// every held key and clears the camera's pending motion.
    pub fn leaves_free_mode(&self, key: KeyCode, pressed: bool) -> (r: bool)
        ensures
            r == (self.free() && toggles_free(key, pressed)),
            r == (self.free() && key == KeyCode::KeyV && pressed),
    {
        self.is_free && key == KeyCode::KeyV && pressed
    }

    fn reset_active_changes(&mut self)
        ensures
            final(self).held() == idle_movement(),
            final(self).free() == old(self).free(),
    {
        self.movement.forward = false;
        self.movement.backward = false;
        self.movement.left = false;
        self.movement.right = false;
        self.movement.up = false;
        self.movement.down = false;
    }

    /// Whether the camera is free.
    pub fn is_free(&self) -> (r: bool)
        ensures
            r == self.free(),
    {
        self.is_free
    }

    /// The held movement keys.
    pub fn movement(&self) -> (r: Movement)
        ensures
            r == self.held(),
    {
        self.movement
    }
}

} // verus!
