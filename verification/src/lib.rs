//! Verified core of a small 3D asteroids game: the bucketed instance storage that
//! groups instances by model, and the keyboard state machines of the camera and
//! of the player's ship.

pub mod camera;
pub mod game;
pub mod keyboard;
pub mod model;
