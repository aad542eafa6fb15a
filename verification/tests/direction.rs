//! Heading updates: default value, turn offsets, and wrapping into
//! one full turn.

use snake_core::consts::{PI_MRAD, TAU_MRAD, TURN_SPEED};
use snake_core::direction::{update_direction, Direction, TurnInput};

#[test]
fn direction_defaults_to_pi() {
    let d = Direction::default();
    assert_eq!(d.0, PI_MRAD);
}

#[test]
fn update_direction_left_adds_rate_times_dt() {
    let mut d = Direction(1000);
    update_direction(&mut d, TurnInput::Left, 16);
    // TURN_SPEED mrad/s for 16 ms: 48 mrad
    assert_eq!(d.0, 1000 + TURN_SPEED * 16 / 1000);
}

#[test]
fn update_direction_right_subtracts() {
    let mut d = Direction(1000);
    update_direction(&mut d, TurnInput::Right, 16);
    assert_eq!(d.0, 1000 - 48);
}

#[test]
fn update_direction_straight_keeps_heading() {
    let mut d = Direction(1234);
    update_direction(&mut d, TurnInput::Straight, 100);
    assert_eq!(d.0, 1234);
}

#[test]
fn direction_wraps_left_past_full_turn() {
    // start just short of a full turn and turn further left by more
    // than the gap: the result is small, non-negative, and below a
    // full turn
    let eps = 10;
    let mut d = Direction(TAU_MRAD - eps);
    let delta = 48; // one 16 ms tick of held left turn
    d.turn(delta);
    assert_eq!(d.0, delta - eps);
    assert!(d.0 >= 0);
    assert!(d.0 < TAU_MRAD);
}

#[test]
fn direction_wraps_right_below_zero() {
    let mut d = Direction(10);
    d.turn(-48);
    assert_eq!(d.0, TAU_MRAD - 38);
    assert!(d.0 >= 0 && d.0 < TAU_MRAD);
}

#[test]
fn direction_wrap_exact_boundary() {
    // landing exactly on a full turn re-normalizes to zero
    let mut d = Direction(TAU_MRAD - 48);
    d.turn(48);
    assert_eq!(d.0, 0);
}
