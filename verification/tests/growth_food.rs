//! Growth on feeding, food pickup and one-for-one replenishment.

use snake_core::consts::{INITIAL_FOOD_COUNT, PICKUP_RADIUS};
use snake_core::food::{can_feed_times, food_collision_system, spawn_food, spawn_food_count};
use snake_core::geometry::Point;
use snake_core::growth::feed;
use snake_core::point_list::PointList;

fn pt(x: i64, y: i64) -> Point {
    Point { x, y }
}

#[test]
fn feed_appends_three_colinear_points() {
    // a chain of ten points on a slanted line; the three new points
    // continue the last segment exactly
    let mut chain = PointList((0..10).map(|i| pt(i * 2000, i * 500)).collect());
    let last = chain.0[9];
    let second_last = chain.0[8];
    let dx = last.x - second_last.x;
    let dy = last.y - second_last.y;
    feed(&mut chain);
    assert_eq!(chain.len(), 13);
    // the old points are untouched
    for i in 0..10 {
        assert_eq!(chain.0[i], pt(i as i64 * 2000, i as i64 * 500));
    }
    // appended points 10..12 sit at last + k*direction for k = 1, 2, 3
    for k in 1..=3i64 {
        let p = chain.0[(9 + k) as usize];
        assert_eq!(p, pt(last.x + k * dx, last.y + k * dy));
        // colinear with the pre-feed last segment
        assert_eq!(dx * (p.y - second_last.y) - dy * (p.x - second_last.x), 0);
    }
}

#[test]
fn feed_twice_grows_by_three_each_time() {
    let mut chain = PointList(vec![pt(0, 0), pt(2000, 0)]);
    feed(&mut chain);
    assert_eq!(chain.len(), 5);
    feed(&mut chain);
    assert_eq!(chain.len(), 8);
    assert_eq!(chain.0[7], pt(2000 * 7, 0));
}

#[test]
fn spawn_food_yields_items_inside_their_boxes() {
    // the jitter offsets come from the random generator: every item
    // must land strictly inside its slot's box, which fails if the
    // wrapper were to hand anything else back
    for _ in 0..20 {
        let foods = spawn_food();
        assert_eq!(foods.len(), INITIAL_FOOD_COUNT);
        for (i, f) in foods.iter().enumerate() {
            let bx = (i as i64 % 2) * 100_000 - 50_000;
            let by = (i as i64 / 2) * 100_000 - 50_000;
            assert!(bx - 30_000 <= f.x && f.x < bx + 30_000, "x out of box: {f:?}");
            assert!(by - 30_000 <= f.y && f.y < by + 30_000, "y out of box: {f:?}");
        }
    }
}

#[test]
fn spawn_food_count_matches() {
    assert_eq!(spawn_food_count(0).len(), 0);
    assert_eq!(spawn_food_count(7).len(), 7);
}

#[test]
fn food_pickup_feeds_and_replenishes() {
    let mut chain = PointList(vec![pt(0, 0), pt(2000, 0), pt(4000, 0), pt(6000, 0)]);
    // one food within the pickup radius of the head, one far away
    let near = pt(PICKUP_RADIUS - 1, 0);
    let far = pt(500_000, 500_000);
    let mut foods = vec![near, far];
    food_collision_system(&mut chain, &mut foods);
    // one pickup: chain grew by exactly three
    assert_eq!(chain.len(), 7);
    // tail extrapolates the last segment
    assert_eq!(chain.0[6], pt(12_000, 0));
    // the picked item was replaced one-for-one, respawned in the
    // first slot's box; the distant one is untouched
    assert_eq!(foods.len(), 2);
    assert_eq!(foods[1], far);
    assert!(foods[0].x >= -80_000 && foods[0].x < -20_000);
    assert!(foods[0].y >= -80_000 && foods[0].y < -20_000);
}

#[test]
fn can_feed_times_checks_extrapolation_room() {
    // a short chain near the origin has room for many feedings
    let near = PointList(vec![pt(0, 0), pt(2000, 0)]);
    assert!(can_feed_times(&near, 0));
    assert!(can_feed_times(&near, 4));
    assert!(can_feed_times(&near, 100));
    // a chain whose tail extrapolates past the coordinate bound does
    // not: from x = 9e8 each feeding reaches 3e7 further out
    let edge = PointList(vec![pt(890_000_000, 0), pt(900_000_000, 0)]);
    assert!(can_feed_times(&edge, 3));
    assert!(!can_feed_times(&edge, 4));
}

#[test]
fn food_at_exact_radius_is_not_picked() {
    let mut chain = PointList(vec![pt(0, 0), pt(2000, 0)]);
    let mut foods = vec![pt(PICKUP_RADIUS, 0)];
    food_collision_system(&mut chain, &mut foods);
    assert_eq!(chain.len(), 2);
    assert_eq!(foods[0], pt(PICKUP_RADIUS, 0));
}
