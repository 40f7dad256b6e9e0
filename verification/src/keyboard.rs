//! The keys that the game reacts to.

use vstd::prelude::*;

verus! {

/// A physical key, reduced to the keys that the camera and the ship react to.
/// Every other key is `Other`.
#[derive(Clone, Copy, Debug, PartialEq, Eq, Structural)]
pub enum KeyCode {
    KeyW,
    KeyA,
    KeyS,
    KeyD,
    KeyV,
    ArrowUp,
    ArrowDown,
    ArrowLeft,
    ArrowRight,
    Space,
    ShiftLeft,
    Escape,
    Other,
}

} // verus!
