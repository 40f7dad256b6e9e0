//! Keyboard state of the player's ship.
//!
//! The ship rolls with `A` and `D` and speeds up or slows down with `W` and `S`,
//! for as long as the key is held. The camera sees each key first: while it is
//! free it takes the movement keys for itself.

use crate::camera::{camera_handles, free_after, movement_after, CameraController};
use crate::keyboard::KeyCode;
use vstd::prelude::*;

verus! {

/// The factor that a held control applies to its rate: `-1`, `0` or `+1`.
#[derive(Clone, Copy, Debug, PartialEq, Eq, Structural)]
pub enum Sign {
    Negative,
    Zero,
    Positive,
}

/// The factor of a control after a key event that sets it: `sign` while the key
/// is pressed, zero once it is released.
pub open spec fn held_sign(sign: Sign, pressed: bool) -> Sign {
    if pressed {
        sign
    } else {
        Sign::Zero
    }
}

/// The ship's roll factor after a key event; `consumed` tells whether the camera
/// took the key. Pressing `V` stops the roll.
pub open spec fn roll_after(roll: Sign, key: KeyCode, pressed: bool, consumed: bool) -> Sign {
    let set = if consumed {
        roll
    } else {
        match key {
            KeyCode::KeyA => held_sign(Sign::Negative, pressed),
            KeyCode::KeyD => held_sign(Sign::Positive, pressed),
            _ => roll,
        }
    };
    if key == KeyCode::KeyV && pressed {
        Sign::Zero
    } else {
        set
    }
}

/// The ship's speed-change factor after a key event; `consumed` tells whether the
/// camera took the key.
pub open spec fn thrust_after(thrust: Sign, key: KeyCode, pressed: bool, consumed: bool) -> Sign {
    if consumed {
        thrust
    } else {
        match key {
            KeyCode::KeyW => held_sign(Sign::Positive, pressed),
            KeyCode::KeyS => held_sign(Sign::Negative, pressed),
            _ => thrust,
        }
    }
}

/// The ship's control keys.
pub open spec fn is_ship_key(key: KeyCode) -> bool {
    match key {
        KeyCode::KeyA | KeyCode::KeyD | KeyCode::KeyW | KeyCode::KeyS => true,
        _ => false,
    }
}

/// While the camera is locked, pressing and then releasing a ship key sets its
/// control and then returns it to zero; both events are used.
pub proof fn lemma_ship_key_press_release(roll: Sign, thrust: Sign, key: KeyCode)
    requires
        is_ship_key(key),
    ensures
        !camera_handles(false, key, true),
        roll_after(roll_after(roll, key, true, false), key, false, false) == (if key
            == KeyCode::KeyA || key == KeyCode::KeyD {
            Sign::Zero
        } else {
            roll
        }),
        thrust_after(thrust_after(thrust, key, true, false), key, false, false) == (if key
            == KeyCode::KeyW || key == KeyCode::KeyS {
            Sign::Zero
        } else {
            thrust
        }),
        key == KeyCode::KeyA ==> roll_after(roll, key, true, false) == Sign::Negative,
        key == KeyCode::KeyD ==> roll_after(roll, key, true, false) == Sign::Positive,
        key == KeyCode::KeyW ==> thrust_after(thrust, key, true, false) == Sign::Positive,
        key == KeyCode::KeyS ==> thrust_after(thrust, key, true, false) == Sign::Negative,
{
}

/// While the camera is free it takes the ship keys for itself: the ship's
/// controls do not change.
pub proof fn lemma_free_camera_takes_ship_keys(roll: Sign, thrust: Sign, key: KeyCode, pressed: bool)
    requires
        is_ship_key(key),
    ensures
        camera_handles(true, key, pressed),
        roll_after(roll, key, pressed, camera_handles(true, key, pressed)) == roll,
        thrust_after(thrust, key, pressed, camera_handles(true, key, pressed)) == thrust,
{
}

/// Only `A`, `D` and a press of `V` can change the ship's roll: any other key
/// event keeps it, whether or not the camera took the key. Pressing `V` stops it.
pub proof fn lemma_roll_keys(roll: Sign, key: KeyCode, pressed: bool, consumed: bool)
    ensures
        key != KeyCode::KeyA && key != KeyCode::KeyD && !(key == KeyCode::KeyV && pressed)
            ==> roll_after(roll, key, pressed, consumed) == roll,
        key == KeyCode::KeyV && pressed ==> roll_after(roll, key, pressed, consumed) == Sign::Zero,
        consumed && !(key == KeyCode::KeyV && pressed) ==> roll_after(roll, key, pressed, consumed)
            == roll,
{
}

/// Only `W` and `S` can change the ship's speed-change factor: any other key
/// event keeps it, and a key the camera took keeps it too.
pub proof fn lemma_thrust_keys(thrust: Sign, key: KeyCode, pressed: bool, consumed: bool)
    ensures
        key != KeyCode::KeyW && key != KeyCode::KeyS ==> thrust_after(thrust, key, pressed, consumed)
            == thrust,
        consumed ==> thrust_after(thrust, key, pressed, consumed) == thrust,
        !consumed && key == KeyCode::KeyW ==> thrust_after(thrust, key, pressed, consumed) == (if pressed {
            Sign::Positive
        } else {
            Sign::Zero
        }),
        !consumed && key == KeyCode::KeyS ==> thrust_after(thrust, key, pressed, consumed) == (if pressed {
            Sign::Negative
        } else {
            Sign::Zero
        }),
{
}

/// The ship's control keys are exactly `A`, `D`, `W` and `S`.
pub proof fn lemma_ship_keys(key: KeyCode)
    ensures
        is_ship_key(key) <==> (key == KeyCode::KeyA || key == KeyCode::KeyD || key == KeyCode::KeyW
            || key == KeyCode::KeyS),
{
}

/// Keyboard state of the ship: the factors applied to its roll rate and to its
/// speed change.
#[derive(Debug)]
pub struct GameManager {
    player_cur_droll: Sign,
    player_cur_dspeed: Sign,
}

impl GameManager {
    /// Factor applied to the roll sensitivity.
    pub closed spec fn roll(&self) -> Sign {
        self.player_cur_droll
    }

    /// Factor applied to the speed change.
    pub closed spec fn thrust(&self) -> Sign {
        self.player_cur_dspeed
    }

    /// A ship with no control held.
    pub fn new() -> (r: Self)
        ensures
            r.roll() == Sign::Zero,
            r.thrust() == Sign::Zero,
    {
        GameManager { player_cur_droll: Sign::Zero, player_cur_dspeed: Sign::Zero }
    }

    /// Stops the ship rolling.
    pub fn reset_active_changes(&mut self)
        ensures
            final(self).roll() == Sign::Zero,
            final(self).thrust() == old(self).thrust(),
    {
        self.player_cur_droll = Sign::Zero;
    }

    /// Applies a key event, first to the camera and then, if the camera did not
    /// consume it, to the ship. Returns whether either of them used the key.
    pub fn handle_key(
        &mut self,
        key: KeyCode,
        pressed: bool,
        camera_controller: &mut CameraController,
    ) -> (handled: bool)
        ensures
            final(camera_controller).free() == free_after(old(camera_controller).free(), key, pressed),
            final(camera_controller).held() == movement_after(
                old(camera_controller).held(),
                old(camera_controller).free(),
                key,
                pressed,
            ),
            final(self).roll() == roll_after(
                old(self).roll(),
                key,
                pressed,
                camera_handles(old(camera_controller).free(), key, pressed),
            ),
            final(self).thrust() == thrust_after(
                old(self).thrust(),
                key,
                pressed,
                camera_handles(old(camera_controller).free(), key, pressed),
            ),
            handled == (camera_handles(old(camera_controller).free(), key, pressed) || is_ship_key(
                key,
            )),
            handled == (old(camera_controller).free() && (key == KeyCode::KeyW || key
                == KeyCode::ArrowUp || key == KeyCode::KeyS || key == KeyCode::ArrowDown || key
                == KeyCode::KeyA || key == KeyCode::ArrowLeft || key == KeyCode::KeyD || key
                == KeyCode::ArrowRight || key == KeyCode::Space || key == KeyCode::ShiftLeft)
                || key == KeyCode::KeyA || key == KeyCode::KeyD || key == KeyCode::KeyW || key
                == KeyCode::KeyS),
            !(key == KeyCode::KeyA || key == KeyCode::KeyD || (key == KeyCode::KeyV && pressed))
                ==> final(self).roll() == old(self).roll(),
            key == KeyCode::KeyV && pressed ==> final(self).roll() == Sign::Zero,
            !(key == KeyCode::KeyW || key == KeyCode::KeyS) ==> final(self).thrust() == old(
                self,
            ).thrust(),
            !old(camera_controller).free() && key == KeyCode::KeyA ==> final(self).roll() == (if pressed {
                Sign::Negative
            } else {
                Sign::Zero
            }),
            !old(camera_controller).free() && key == KeyCode::KeyD ==> final(self).roll() == (if pressed {
                Sign::Positive
            } else {
                Sign::Zero
            }),
            !old(camera_controller).free() && key == KeyCode::KeyW ==> final(self).thrust() == (if pressed {
                Sign::Positive
            } else {
                Sign::Zero
            }),
            !old(camera_controller).free() && key == KeyCode::KeyS ==> final(self).thrust() == (if pressed {
                Sign::Negative
            } else {
                Sign::Zero
            }),
            old(camera_controller).free() && (key == KeyCode::KeyA || key == KeyCode::KeyD) ==> final(self).roll()
                == old(self).roll(),
            old(camera_controller).free() && (key == KeyCode::KeyW || key == KeyCode::KeyS) ==> final(self).thrust()
                == old(self).thrust(),
    {
        let mut key_handled = true;
        if !camera_controller.handle_key(key, pressed) {
            match key {
                KeyCode::KeyA => self.player_cur_droll = if pressed {
                    Sign::Negative
                } else {
                    Sign::Zero
                },
                KeyCode::KeyD => self.player_cur_droll = if pressed {
                    Sign::Positive
                } else {
                    Sign::Zero
                },
                KeyCode::KeyW => self.player_cur_dspeed = if pressed {
                    Sign::Positive
                } else {
                    Sign::Zero
                },
                KeyCode::KeyS => self.player_cur_dspeed = if pressed {
                    Sign::Negative
                } else {
                    Sign::Zero
                },
                _ => { key_handled = false },
            }
        }
        if key == KeyCode::KeyV && pressed {
            self.reset_active_changes();
        }
        return key_handled;
    }

    /// Factor applied to the roll sensitivity.
    pub fn roll_factor(&self) -> (r: Sign)
        ensures
            r == self.roll(),
    {
        self.player_cur_droll
    }

    /// Factor applied to the speed change.
    pub fn thrust_factor(&self) -> (r: Sign)
        ensures
            r == self.thrust(),
    {
        self.player_cur_dspeed
    }
}

/// Routes a key event of the window to the ship and the camera. Returns whether
/// the game should close: `Escape` pressed, and neither of them used it.
pub fn handle_window_key(
    game_manager: &mut GameManager,
    camera_controller: &mut CameraController,
    key: KeyCode,
    pressed: bool,
) -> (exit: bool)
    ensures
        final(camera_controller).free() == free_after(old(camera_controller).free(), key, pressed),
        final(camera_controller).held() == movement_after(
            old(camera_controller).held(),
            old(camera_controller).free(),
            key,
            pressed,
        ),
        final(game_manager).roll() == roll_after(
            old(game_manager).roll(),
            key,
            pressed,
            camera_handles(old(camera_controller).free(), key, pressed),
        ),
        final(game_manager).thrust() == thrust_after(
            old(game_manager).thrust(),
            key,
            pressed,
            camera_handles(old(camera_controller).free(), key, pressed),
        ),
        exit == (key == KeyCode::Escape && pressed),            !(key == KeyCode::KeyA || key == KeyCode::KeyD || (key == KeyCode::KeyV && pressed))
            ==> final(game_manager).roll() == old(game_manager).roll(),
        key == KeyCode::KeyV && pressed ==> final(game_manager).roll() == Sign::Zero,
        !(key == KeyCode::KeyW || key == KeyCode::KeyS) ==> final(game_manager).thrust() == old(
            game_manager,
        ).thrust(),
        !old(camera_controller).free() && key == KeyCode::KeyA ==> final(game_manager).roll() == (if pressed {
            Sign::Negative
        } else {
            Sign::Zero
        }),
        !old(camera_controller).free() && key == KeyCode::KeyD ==> final(game_manager).roll() == (if pressed {
            Sign::Positive
        } else {
            Sign::Zero
        }),
        !old(camera_controller).free() && key == KeyCode::KeyW ==> final(game_manager).thrust() == (if pressed {
            Sign::Positive
        } else {
            Sign::Zero
        }),
        !old(camera_controller).free() && key == KeyCode::KeyS ==> final(game_manager).thrust() == (if pressed {
            Sign::Negative
        } else {
            Sign::Zero
        }),
        old(camera_controller).free() && (key == KeyCode::KeyA || key == KeyCode::KeyD) ==> final(game_manager).roll()
            == old(game_manager).roll(),
        old(camera_controller).free() && (key == KeyCode::KeyW || key == KeyCode::KeyS) ==> final(game_manager).thrust()
            == old(game_manager).thrust(),
{
    if !game_manager.handle_key(key, pressed, camera_controller) {
        match (key, pressed) {
            (KeyCode::Escape, true) => {
                return true;
            },
            _ => {},
        }
    }
    false
}

} // verus!
