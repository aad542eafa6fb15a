//! The snake's heading: a single angle in milliradians, re-normalized
//! into `[0, TAU_MRAD)`, mutated only by the player's turn input.

use vstd::prelude::*;
use crate::consts::{TAU_MRAD, PI_MRAD, TURN_SPEED};

verus! {

/// Heading of the chain's head, an angle in milliradians.
#[derive(Clone, Copy, PartialEq, Eq, Structural, Debug)]
pub struct Direction(pub i64);

/// The angle is normalized: at least zero and below a full turn.
pub open spec fn dir_wf(d: Direction) -> bool {
    0 <= d.0 < TAU_MRAD
}

/// One re-normalization step: brings any angle within one turn of the
/// normalized range back into `[0, TAU_MRAD)`.
pub open spec fn wrap_angle(a: int) -> int {
    if a < 0 {
        a + TAU_MRAD
    } else if a >= TAU_MRAD {
        a - TAU_MRAD
    } else {
        a
    }
}

/// Angular offset of a turn input held for `dt_ms` milliseconds.
pub open spec fn turn_delta(dt_ms: int) -> int {
    TURN_SPEED * dt_ms / 1000
}

/// Which turn signal the player holds this tick; holding neither leaves
/// the heading untouched.
#[derive(Clone, Copy, PartialEq, Eq, Structural, Debug)]
pub enum TurnInput {
    Left,
    Right,
    Straight,
}

impl Default for Direction {
    /// A fresh snake heads along the negative x axis.
    fn default() -> (d: Self)
        ensures
            d.0 == PI_MRAD,
            dir_wf(d),
    {
        Direction(PI_MRAD)
    }
}

impl Direction {
    /// Turns by `delta` milliradians (positive is counter-clockwise) and
    /// re-normalizes into `[0, TAU_MRAD)`.
    pub fn turn(&mut self, delta: i64)
        requires
            dir_wf(*old(self)),
            -TAU_MRAD < delta < TAU_MRAD,
        ensures
            final(self).0 == wrap_angle(old(self).0 + delta),
            dir_wf(*final(self)),
    {
        let mut a = self.0 + delta;
        if a < 0 {
            a = a + TAU_MRAD;
        } else if a >= TAU_MRAD {
            a = a - TAU_MRAD;
        }
        self.0 = a;
    }
}

/// Applies one tick of held turn input to the heading: an offset of
/// `TURN_SPEED` milliradians per second, counter-clockwise for a left
/// turn, clockwise for a right turn, nothing when neither is held.
pub fn update_direction(direction: &mut Direction, input: TurnInput, dt_ms: u32)
    requires
        dir_wf(*old(direction)),
        dt_ms <= 2000,
    ensures
        dir_wf(*final(direction)),
        input == TurnInput::Left ==> final(direction).0 == wrap_angle(
            old(direction).0 + turn_delta(dt_ms as int),
        ),
        input == TurnInput::Right ==> final(direction).0 == wrap_angle(
            old(direction).0 - turn_delta(dt_ms as int),
        ),
        input == TurnInput::Straight ==> *final(direction) == *old(direction),
{
    let delta: i64 = TURN_SPEED * (dt_ms as i64) / 1000;
    match input {
        TurnInput::Left => direction.turn(delta),
        TurnInput::Right => direction.turn(-delta),
        TurnInput::Straight => {}
    }
}

/// The wrapped angle stays congruent to the raw sum modulo a full turn:
/// re-normalization changes the representative, never the heading.
pub proof fn lemma_wrap_angle_congruent(a: int)
    requires
        -TAU_MRAD <= a < 2 * TAU_MRAD,
    ensures
        0 <= a < TAU_MRAD ==> wrap_angle(a) == a,
        wrap_angle(a) % (TAU_MRAD as int) == a % (TAU_MRAD as int),
{
    if a < 0 || a >= TAU_MRAD {
        assert(wrap_angle(a) % (TAU_MRAD as int) == a % (TAU_MRAD as int)) by (nonlinear_arith)
            requires
                -TAU_MRAD <= a < 2 * TAU_MRAD,
                wrap_angle(a) == if a < 0 { a + TAU_MRAD } else { a - TAU_MRAD },
        ;
    }
}

/// A heading just short of a full turn, turned left past the wrap point,
/// comes out as a small non-negative angle and never reaches a full
/// turn: starting at `TAU_MRAD - eps` and turning further left by
/// `delta > eps` yields exactly `delta - eps`.
pub proof fn lemma_direction_wraps_left(eps: int, delta: int)
    requires
        0 < eps < TAU_MRAD,
        eps < delta < TAU_MRAD,
    ensures
        wrap_angle((TAU_MRAD - eps) + delta) == delta - eps,
        0 <= wrap_angle((TAU_MRAD - eps) + delta) < TAU_MRAD,
{
}

} // verus!
