//! The rubber-band follow: resting within the target spacing, exact
//! follow offsets, the empty-chain guard, and convergence of the gaps
//! under repeated ticks with a straight heading.

use snake_core::consts::DISTANCE_BETWEEN_POINTS;
use snake_core::geometry::Point;
use snake_core::locomotion::{follow_step, update_position};
use snake_core::point_list::PointList;

fn pt(x: i64, y: i64) -> Point {
    Point { x, y }
}

#[test]
fn follow_step_rests_within_spacing() {
    // distance exactly the target spacing: no movement
    let p = pt(0, 0);
    let target = pt(DISTANCE_BETWEEN_POINTS, 0);
    assert_eq!(follow_step(p, target, 333), p);
    // and a zero-length direction moves nothing either
    assert_eq!(follow_step(p, p, 333), p);
}

#[test]
fn follow_step_moves_straight_toward_predecessor() {
    // gap 3000 along x, step 333: moves exactly 333 toward the target
    let p = pt(0, 0);
    let target = pt(3000, 0);
    assert_eq!(follow_step(p, target, 333), pt(333, 0));
    // and symmetrically from the other side
    let p = pt(3000, 0);
    let target = pt(0, 0);
    assert_eq!(follow_step(p, target, 333), pt(2667, 0));
}

#[test]
fn follow_step_diagonal_rounds_toward_zero() {
    // gap (3000, 4000), distance 5000, step 500: offset is
    // (3000*500/5000, 4000*500/5000) = (300, 400)
    let p = pt(0, 0);
    let target = pt(3000, 4000);
    assert_eq!(follow_step(p, target, 500), pt(300, 400));
}

#[test]
fn update_position_empty_chain_is_noop() {
    let mut chain = PointList::new();
    update_position(&mut chain, 500, 500, 333);
    assert_eq!(chain.len(), 0);
}

#[test]
fn update_position_moves_head_by_displacement() {
    let mut chain = PointList(vec![pt(0, 0)]);
    update_position(&mut chain, -333, 10, 333);
    assert_eq!(chain.0[0], pt(-333, 10));
}

#[test]
fn update_position_follows_in_chain_order() {
    // the second point follows the already moved head within one tick
    let mut chain = PointList(vec![pt(0, 0), pt(5000, 0)]);
    update_position(&mut chain, -1000, 0, 1000);
    assert_eq!(chain.0[0], pt(-1000, 0));
    // gap to the moved head is 6000 > spacing: moves 1000 toward it
    assert_eq!(chain.0[1], pt(4000, 0));
}

#[test]
fn gaps_converge_toward_resting_head() {
    // a widely stretched chain behind a resting head: within a bounded
    // number of ticks every point closes to within the target spacing
    // of its predecessor, point by point from the front
    let mut chain = PointList(vec![
        pt(0, 0),
        pt(9000, 2000),
        pt(21000, -3000),
        pt(30000, 10000),
    ]);
    let step = 333; // one 60 fps tick of movement
    for _ in 0..500 {
        update_position(&mut chain, 0, 0, step);
    }
    for i in 1..chain.0.len() {
        let dx = chain.0[i - 1].x - chain.0[i].x;
        let dy = chain.0[i - 1].y - chain.0[i].y;
        assert!(dx * dx + dy * dy <= DISTANCE_BETWEEN_POINTS * DISTANCE_BETWEEN_POINTS);
    }
}

#[test]
fn front_gap_shrinks_monotonically_toward_resting_head() {
    // the point right behind a resting predecessor: its gap shrinks
    // every tick while above the target spacing, and never grows
    let mut chain = PointList(vec![pt(0, 0), pt(20000, 5000)]);
    let step = 333;
    let mut previous = i64::MAX;
    loop {
        update_position(&mut chain, 0, 0, step);
        let dx = chain.0[0].x - chain.0[1].x;
        let dy = chain.0[0].y - chain.0[1].y;
        let d2 = dx * dx + dy * dy;
        assert!(d2 < previous || d2 <= DISTANCE_BETWEEN_POINTS * DISTANCE_BETWEEN_POINTS);
        previous = d2;
        if d2 <= DISTANCE_BETWEEN_POINTS * DISTANCE_BETWEEN_POINTS {
            break;
        }
    }
}

#[test]
fn taut_chain_keeps_pace_with_moving_head() {
    // a follower already stretched straight behind a head that keeps
    // moving away at the follower's own speed neither catches up nor
    // falls behind: the gap stays constant
    let mut chain = PointList(vec![pt(0, 0), pt(9000, 0)]);
    let step = 333;
    for _ in 0..100 {
        update_position(&mut chain, -step, 0, step);
        assert_eq!(chain.0[1].x - chain.0[0].x, 9000);
        assert_eq!(chain.0[1].y, 0);
    }
}
