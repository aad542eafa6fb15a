//! Collision and life state machine: while no invincibility window is
//! open, the snake's head is tested against every obstacle polygon; a
//! hit costs one life, truncates the chain's tail, and opens a timed
//! invincibility window during which the whole check is skipped.

use vstd::prelude::*;
use crate::consts::{INVINCIBILITY_MS, COLLISION_PENALTY_POINTS};
use crate::geometry::{Point, in_bounds, point_in_polygon, point_in_polygon_spec};
use crate::point_list::{PointList, chain_in_bounds};
use crate::players_lifes::PlayersLifes;

verus! {

/// The countdown token of an open invincibility window; while one
/// exists, collision detection does not run at all.
#[derive(Clone, Copy, Debug, PartialEq, Eq, Structural)]
pub struct InvincibilityTimer {
    pub remaining_ms: u32,
}

/// Every obstacle is a well-formed closed polygon: at least three
/// vertices, all within the coordinate bound.
pub open spec fn obstacle_set_wf(obs: Seq<PointList>) -> bool {
    forall|i: int| 0 <= i < obs.len() ==> (#[trigger] obs[i])@.len() >= 3 && chain_in_bounds(
        obs[i]@,
    )
}

/// The head lies inside at least one obstacle of the set.
pub open spec fn hits_any(head: Point, obs: Seq<PointList>) -> bool {
    exists|i: int| 0 <= i < obs.len() && point_in_polygon_spec(head, (#[trigger] obs[i])@)
}

/// One tick of collision detection and its life-state transition.
///
/// While an invincibility window is open this is a complete no-op: the
/// detection itself is suppressed, so lives, chain and window are all
/// left untouched. Otherwise, if the head lies inside some obstacle,
/// atomically: one life is taken, the last `COLLISION_PENALTY_POINTS`
/// points of the chain are removed, and a fresh invincibility window of
/// `INVINCIBILITY_MS` opens. With no hit, nothing changes.
pub fn collision_system(
    snake: &mut PointList,
    obstacles: &Vec<PointList>,
    lifes: &mut PlayersLifes,
    invincibility: &mut Option<InvincibilityTimer>,
)
    requires
        old(snake)@.len() > COLLISION_PENALTY_POINTS,
        chain_in_bounds(old(snake)@),
        obstacle_set_wf(obstacles@),
        (old(invincibility).is_none() && hits_any(old(snake)@[0], obstacles@)) ==> old(
            lifes,
        ).0 >= 1,
    ensures
        old(invincibility).is_some() ==> final(snake)@ =~= old(snake)@ && *final(lifes) == *old(
            lifes,
        ) && *final(invincibility) == *old(invincibility),
        old(invincibility).is_none() && !hits_any(old(snake)@[0], obstacles@) ==> final(snake)@
            =~= old(snake)@ && *final(lifes) == *old(lifes) && final(invincibility).is_none(),
        old(invincibility).is_none() && hits_any(old(snake)@[0], obstacles@) ==> {
            &&& final(lifes).0 == old(lifes).0 - 1
            &&& *final(invincibility) == Some(
                InvincibilityTimer { remaining_ms: INVINCIBILITY_MS },
            )
            &&& final(snake)@ =~= old(snake)@.take(
                old(snake)@.len() - COLLISION_PENALTY_POINTS as int,
            )
        },
{
    if invincibility.is_some() {
        return;
    }
    let head = snake.0[0];
    let n = obstacles.len();
    let mut i: usize = 0;
    while i < n
        invariant
            n == obstacles@.len(),
            0 <= i <= n,
            obstacle_set_wf(obstacles@),
            in_bounds(head),
            forall|k: int| 0 <= k < i ==> !point_in_polygon_spec(head, (#[trigger] obstacles@[k])@),
            snake@ == old(snake)@,
            snake@.len() > COLLISION_PENALTY_POINTS,
            head == snake@[0],
            *lifes == *old(lifes),
            invincibility.is_none(),
            old(invincibility).is_none(),
            hits_any(old(snake)@[0], obstacles@) ==> old(lifes).0 >= 1,
        decreases n - i,
    {
        let obstacle = &obstacles[i];
        if point_in_polygon(&head, &obstacle.0) {
            proof {
                assert(hits_any(old(snake)@[0], obstacles@));
            }
            // one life off, a timed window open, and the tail clipped —
            // applied together as a single transition
            lifes.0 = lifes.0 - 1;
            *invincibility = Some(InvincibilityTimer { remaining_ms: INVINCIBILITY_MS });
            let snake_length = snake.0.len();
            snake.truncate(snake_length - COLLISION_PENALTY_POINTS);
            return;
        }
        i = i + 1;
    }
}

/// The invincibility window after one frame's countdown: down by the
/// frame time, closed once the countdown has elapsed, absent stays
/// absent.
pub open spec fn window_after(w: Option<InvincibilityTimer>, dt_ms: u32) -> Option<
    InvincibilityTimer,
> {
    match w {
        None => None,
        Some(t) => if t.remaining_ms > dt_ms {
            Some(InvincibilityTimer { remaining_ms: (t.remaining_ms - dt_ms) as u32 })
        } else {
            None
        },
    }
}

/// Counts an open invincibility window down by the frame time and
/// closes it once the countdown has elapsed.
pub fn invincibility_timer_system(invincibility: &mut Option<InvincibilityTimer>, dt_ms: u32)
    ensures
        *final(invincibility) == window_after(*old(invincibility), dt_ms),
{
    match invincibility {
        Some(timer) => {
            if timer.remaining_ms > dt_ms {
                timer.remaining_ms = timer.remaining_ms - dt_ms;
            } else {
                *invincibility = None;
            }
        },
        None => {},
    }
}

} // verus!
