use raycasting_term::angles::FX_TAU;
use raycasting_term::fx::FX_SCALE;
use raycasting_term::grid::reference_arena;
use raycasting_term::player::{Player, MovementKeys, FX_WALL_MARGIN};

const SCALE: f64 = 281474976710656.0;

fn fx(v: f64) -> i64 {
    (v * SCALE).round() as i64
}

#[test]
fn blocked_positive_x_move_snaps_just_before_the_wall() {
    let g = reference_arena();
    let mut p = Player::new(fx(6.5), fx(4.5), 0, fx(1.0));
    // 6.5 + 0.7 crosses into the border wall column at x = 7.
    assert!(p.translate(&g, fx(0.7), 0));
    assert_eq!(p.x, 7 * FX_SCALE - FX_WALL_MARGIN);
    assert_eq!(p.y, fx(4.5));
    assert!(p.x / FX_SCALE == 6);
}

#[test]
fn blocked_negative_x_move_snaps_just_past_the_wall() {
    let g = reference_arena();
    let mut p = Player::new(fx(1.5), fx(4.5), 0, fx(1.0));
    // 1.5 - 0.7 crosses into the border wall column at x = 0.
    assert!(p.translate(&g, fx(-0.7), 0));
    assert_eq!(p.x, FX_SCALE + FX_WALL_MARGIN);
    assert!(p.x / FX_SCALE == 1);
}

#[test]
fn blocked_moves_snap_on_the_y_axis_too() {
    let g = reference_arena();
    let mut p = Player::new(fx(3.5), fx(6.5), 0, fx(1.0));
    assert!(p.translate(&g, 0, fx(0.7)));
    assert_eq!(p.y, 7 * FX_SCALE - FX_WALL_MARGIN);
    let mut p = Player::new(fx(3.5), fx(1.5), 0, fx(1.0));
    assert!(p.translate(&g, 0, fx(-0.7)));
    assert_eq!(p.y, FX_SCALE + FX_WALL_MARGIN);
}

#[test]
fn diagonal_move_into_a_corner_slides_along_the_wall() {
    let g = reference_arena();
    let mut p = Player::new(fx(6.5), fx(6.5), 0, fx(1.0));
    // Both axes would enter border walls; each snaps independently.
    assert!(p.translate(&g, fx(0.8), fx(0.8)));
    assert_eq!(p.x, 7 * FX_SCALE - FX_WALL_MARGIN);
    assert_eq!(p.y, 7 * FX_SCALE - FX_WALL_MARGIN);
}

#[test]
fn unblocked_moves_apply_exactly() {
    let g = reference_arena();
    let mut p = Player::new(fx(3.5), fx(4.5), 0, fx(1.0));
    assert!(p.translate(&g, fx(0.25), fx(-0.5)));
    assert_eq!(p.x, fx(3.75));
    assert_eq!(p.y, fx(4.0));
}

#[test]
fn rotation_keys_turn_and_renormalize() {
    let g = reference_arena();
    let mut p = Player::new(fx(3.5), fx(4.5), fx(0.1), fx(1.0));
    let keys = MovementKeys {
        forward: false,
        backward: false,
        strafe_left: false,
        strafe_right: false,
        turn_left: false,
        turn_right: true,
    };
    // Turning right by more than the current angle wraps below zero back
    // into [0, tau).
    assert!(p.continuous_update(&g, keys, fx(0.1), FX_SCALE, 0));
    assert!(0 <= p.angle && p.angle < FX_TAU);
    let expected = 0.1 - 300_f64.to_radians() * 0.1 + std::f64::consts::TAU;
    assert!(((p.angle as f64 / SCALE) - expected).abs() < 1e-9);
}

#[test]
fn forward_key_moves_along_the_facing() {
    let g = reference_arena();
    let mut p = Player::new(fx(3.5), fx(4.5), 0, fx(1.0));
    let keys = MovementKeys {
        forward: true,
        backward: false,
        strafe_left: false,
        strafe_right: false,
        turn_left: false,
        turn_right: false,
    };
    // Facing angle 0: forward moves along +x at 30 cells per second.
    assert!(p.continuous_update(&g, keys, fx(0.01), FX_SCALE, 0));
    assert!(((p.x as f64 / SCALE) - 3.8).abs() < 1e-9);
    assert!(((p.y as f64 / SCALE) - 4.5).abs() < 1e-12);
}
