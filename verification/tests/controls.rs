use asteroids_3d::camera::{CameraController, Movement};
use asteroids_3d::game::{handle_window_key, GameManager, Sign};
use asteroids_3d::keyboard::KeyCode;

fn idle() -> Movement {
    Movement { forward: false, backward: false, left: false, right: false, up: false, down: false }
}

#[test]
fn v_switches_between_free_and_locked() {
    let mut c = CameraController::new(false);
    assert!(!c.is_free());
    assert!(!c.handle_key(KeyCode::KeyV, true));
    assert!(c.is_free());
    assert!(!c.handle_key(KeyCode::KeyV, false));
    assert!(c.is_free());
    assert!(!c.handle_key(KeyCode::KeyV, true));
    assert!(!c.is_free());
}

#[test]
fn free_camera_holds_movement_keys() {
    let mut c = CameraController::new(true);
    assert!(c.handle_key(KeyCode::KeyW, true));
    assert!(c.handle_key(KeyCode::ArrowLeft, true));
    assert!(c.handle_key(KeyCode::Space, true));
    assert_eq!(c.movement(), Movement { forward: true, left: true, up: true, ..idle() });
    assert!(c.handle_key(KeyCode::KeyW, false));
    assert_eq!(c.movement(), Movement { left: true, up: true, ..idle() });
    assert!(c.handle_key(KeyCode::ShiftLeft, true));
    assert!(c.handle_key(KeyCode::ArrowDown, true));
    assert!(c.handle_key(KeyCode::KeyD, true));
    assert_eq!(
        c.movement(),
        Movement { backward: true, left: true, right: true, up: true, down: true, forward: false }
    );
    assert!(!c.handle_key(KeyCode::Escape, true));
    assert!(!c.handle_key(KeyCode::Other, true));
}

#[test]
fn locking_the_camera_releases_every_key() {
    let mut c = CameraController::new(true);
    c.handle_key(KeyCode::KeyW, true);
    c.handle_key(KeyCode::KeyA, true);
    c.handle_key(KeyCode::KeyV, true);
    assert!(!c.is_free());
    assert_eq!(c.movement(), idle());
    c.handle_key(KeyCode::KeyV, true);
    assert!(c.is_free());
    assert_eq!(c.movement(), idle());
}

#[test]
fn locked_camera_ignores_movement_keys() {
    let mut c = CameraController::new(false);
    assert!(!c.handle_key(KeyCode::KeyW, true));
    assert!(!c.handle_key(KeyCode::ArrowUp, true));
    assert_eq!(c.movement(), idle());
    assert!(!c.is_free());
}

#[test]
fn ship_keys_set_controls_while_held() {
    let mut c = CameraController::new(false);
    let mut g = GameManager::new();
    assert_eq!(g.roll_factor(), Sign::Zero);
    assert_eq!(g.thrust_factor(), Sign::Zero);
    assert!(g.handle_key(KeyCode::KeyA, true, &mut c));
    assert_eq!(g.roll_factor(), Sign::Negative);
    assert!(g.handle_key(KeyCode::KeyA, false, &mut c));
    assert_eq!(g.roll_factor(), Sign::Zero);
    assert!(g.handle_key(KeyCode::KeyD, true, &mut c));
    assert_eq!(g.roll_factor(), Sign::Positive);
    assert!(g.handle_key(KeyCode::KeyW, true, &mut c));
    assert_eq!(g.thrust_factor(), Sign::Positive);
    assert!(g.handle_key(KeyCode::KeyS, true, &mut c));
    assert_eq!(g.thrust_factor(), Sign::Negative);
    assert!(g.handle_key(KeyCode::KeyS, false, &mut c));
    assert_eq!(g.thrust_factor(), Sign::Zero);
    assert!(!g.handle_key(KeyCode::ArrowUp, true, &mut c));
    assert!(!g.handle_key(KeyCode::Space, true, &mut c));
}

#[test]
fn v_stops_the_roll_and_frees_the_camera() {
    let mut c = CameraController::new(false);
    let mut g = GameManager::new();
    g.handle_key(KeyCode::KeyD, true, &mut c);
    g.handle_key(KeyCode::KeyW, true, &mut c);
    assert!(!g.handle_key(KeyCode::KeyV, true, &mut c));
    assert!(c.is_free());
    assert_eq!(g.roll_factor(), Sign::Zero);
    assert_eq!(g.thrust_factor(), Sign::Positive);
}

#[test]
fn free_camera_takes_ship_keys() {
    let mut c = CameraController::new(true);
    let mut g = GameManager::new();
    assert!(g.handle_key(KeyCode::KeyA, true, &mut c));
    assert!(g.handle_key(KeyCode::KeyW, true, &mut c));
    assert_eq!(g.roll_factor(), Sign::Zero);
    assert_eq!(g.thrust_factor(), Sign::Zero);
    assert_eq!(c.movement(), Movement { forward: true, left: true, ..idle() });
}

#[test]
fn reset_active_changes_stops_rolling_only() {
    let mut c = CameraController::new(false);
    let mut g = GameManager::new();
    g.handle_key(KeyCode::KeyA, true, &mut c);
    g.handle_key(KeyCode::KeyW, true, &mut c);
    g.reset_active_changes();
    assert_eq!(g.roll_factor(), Sign::Zero);
    assert_eq!(g.thrust_factor(), Sign::Positive);
}

#[test]
fn escape_closes_the_game() {
    let mut c = CameraController::new(false);
    let mut g = GameManager::new();
    assert!(handle_window_key(&mut g, &mut c, KeyCode::Escape, true));
    assert!(!handle_window_key(&mut g, &mut c, KeyCode::Escape, false));
    assert!(!handle_window_key(&mut g, &mut c, KeyCode::KeyA, true));
    assert_eq!(g.roll_factor(), Sign::Negative);
    c.handle_key(KeyCode::KeyV, true);
    assert!(handle_window_key(&mut g, &mut c, KeyCode::Escape, true));
}

#[test]
fn leaving_free_mode_is_pressing_v_while_free() {
    let mut c = CameraController::new(true);
    assert!(c.leaves_free_mode(KeyCode::KeyV, true));
    assert!(!c.leaves_free_mode(KeyCode::KeyV, false));
    assert!(!c.leaves_free_mode(KeyCode::KeyW, true));
    c.handle_key(KeyCode::KeyV, true);
    assert!(!c.leaves_free_mode(KeyCode::KeyV, true));
}
