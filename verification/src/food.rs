//! Food: items at fixed pickup radius around the world origin, spawned
//! on a jittered grid, picked up by the snake's head, and replenished
//! one-for-one; every pickup feeds the chain.

use vstd::prelude::*;
use crate::consts::{COORD_LIMIT, INITIAL_FOOD_COUNT, PICKUP_RADIUS};
use crate::geometry::{Point, in_bounds, sq_dist, lemma_mul_bound};
use crate::growth::{feed, feed_spec, feed_in_bounds};
use crate::point_list::{PointList, chain_in_bounds};

verus! {

/// Relies on rand::Rng::gen_range over a half-open integer range on
/// the thread-local generator: the sample is at least the lower and
/// below the upper end. Nothing more is assumed of the value.
#[verifier::external_body]
fn rand_range(lo: i64, hi: i64) -> (r: i64)
    requires
        lo < hi,
    ensures
        lo <= r < hi,
{
    rand::Rng::gen_range(&mut rand::thread_rng(), lo..hi)
}

/// Center of spawn-grid slot `i`: two columns and as many rows as
/// needed, 100 world units apart, centered near the origin.
pub open spec fn food_base(i: int) -> Point {
    Point { x: ((i % 2) * 100000 - 50000) as i64, y: ((i / 2) * 100000 - 50000) as i64 }
}

/// `p` lies within the jitter box of spawn-grid slot `i`: each
/// coordinate within (-30, 30) world units of the slot's center.
pub open spec fn in_spawn_box(i: int, p: Point) -> bool {
    &&& food_base(i).x - 30000 <= p.x < food_base(i).x + 30000
    &&& food_base(i).y - 30000 <= p.y < food_base(i).y + 30000
}

/// Every food item lies within the coordinate bound.
pub open spec fn foods_wf(foods: Seq<Point>) -> bool {
    forall|i: int| 0 <= i < foods.len() ==> in_bounds(#[trigger] foods[i])
}

/// Spawns `count` food items, one per spawn-grid slot, each jittered
/// uniformly within its slot's box.
pub fn spawn_food_count(count: usize) -> (r: Vec<Point>)
    requires
        count <= 1000,
    ensures
        r@.len() == count,
        forall|i: int| 0 <= i < count ==> in_spawn_box(i, #[trigger] r@[i]),
        foods_wf(r@),
{
    let mut foods: Vec<Point> = Vec::new();
    let mut i: usize = 0;
    while i < count
        invariant
            count <= 1000,
            0 <= i <= count,
            foods@.len() == i,
            forall|k: int| 0 <= k < i ==> in_spawn_box(k, #[trigger] foods@[k]),
            foods_wf(foods@),
        decreases count - i,
    {
        let bx: i64 = ((i % 2) as i64) * 100000 - 50000;
        let by: i64 = ((i / 2) as i64) * 100000 - 50000;
        let p = Point { x: bx + rand_range(-30000, 30000), y: by + rand_range(-30000, 30000) };
        foods.push(p);
        i = i + 1;
    }
    foods
}

/// Spawns the initial food set of a round.
pub fn spawn_food() -> (r: Vec<Point>)
    ensures
        r@.len() == INITIAL_FOOD_COUNT,
        forall|i: int| 0 <= i < INITIAL_FOOD_COUNT ==> in_spawn_box(i, #[trigger] r@[i]),
        foods_wf(r@),
{
    spawn_food_count(INITIAL_FOOD_COUNT)
}

/// The head is close enough to pick the item up: strictly within the
/// pickup radius (compared exactly on squared distances).
pub open spec fn picked(head: Point, food: Point) -> bool {
    sq_dist(head, food) < PICKUP_RADIUS * PICKUP_RADIUS
}

/// How many of the first `j` food items the head picks up.
pub open spec fn hit_count_upto(head: Point, foods: Seq<Point>, j: int) -> nat
    decreases j,
{
    if j <= 0 {
        0
    } else {
        hit_count_upto(head, foods, j - 1) + if picked(head, foods[j - 1]) { 1nat } else { 0nat }
    }
}

/// The chain after `k` feedings in a row.
pub open spec fn feed_n(s: Seq<Point>, k: nat) -> Seq<Point>
    decreases k,
{
    if k == 0 {
        s
    } else {
        feed_spec(feed_n(s, (k - 1) as nat))
    }
}

/// Whether `k` feedings in a row all stay within the coordinate bound.
pub open spec fn can_feed_n(s: Seq<Point>, k: nat) -> bool
    decreases k,
{
    if k == 0 {
        true
    } else {
        can_feed_n(s, (k - 1) as nat) && feed_in_bounds(feed_n(s, (k - 1) as nat))
    }
}

/// Repeated feeding only ever appends: the length grows by three per
/// feeding and the existing prefix — the head in particular — stays.
pub proof fn lemma_feed_n_prefix(s: Seq<Point>, k: nat)
    requires
        s.len() >= 2,
    ensures
        feed_n(s, k).len() == s.len() + 3 * k,
        forall|i: int| 0 <= i < s.len() ==> feed_n(s, k)[i] == s[i],
    decreases k,
{
    if k > 0 {
        lemma_feed_n_prefix(s, (k - 1) as nat);
    }
}

/// Feasibility of repeated feeding is monotone: fewer feedings need no
/// more room.
pub proof fn lemma_can_feed_n_monotone(s: Seq<Point>, j: nat, k: nat)
    requires
        j <= k,
        can_feed_n(s, k),
    ensures
        can_feed_n(s, j),
    decreases k,
{
    if j < k {
        lemma_can_feed_n_monotone(s, j, (k - 1) as nat);
    }
}

/// The number of hits among the first `j` items never exceeds `j`.
proof fn lemma_hit_count_bound(head: Point, foods: Seq<Point>, j: int)
    ensures
        hit_count_upto(head, foods, j) <= if j <= 0 { 0 } else { j },
    decreases j,
{
    if j > 0 {
        lemma_hit_count_bound(head, foods, j - 1);
    }
}

/// Decides whether `k` feedings in a row stay within the coordinate
/// bound, walking the extrapolated tail without building the chains:
/// each feeding appends `last + d`, `last + 2d`, `last + 3d` and
/// leaves the segment `d` unchanged.
pub fn can_feed_times(chain: &PointList, k: usize) -> (r: bool)
    requires
        chain@.len() >= 2,
        chain_in_bounds(chain@),
    ensures
        r == can_feed_n(chain@, k as nat),
{
    let n = chain.0.len();
    let mut last = chain.0[n - 1];
    let mut second = chain.0[n - 2];
    let mut j: usize = 0;
    while j < k
        invariant
            chain@.len() >= 2,
            chain_in_bounds(chain@),
            0 <= j <= k,
            can_feed_n(chain@, j as nat),
            feed_n(chain@, j as nat).len() == chain@.len() + 3 * j,
            last == feed_n(chain@, j as nat)[feed_n(chain@, j as nat).len() - 1],
            second == feed_n(chain@, j as nat)[feed_n(chain@, j as nat).len() - 2],
            in_bounds(last),
            in_bounds(second),
        decreases k - j,
    {
        let dx = last.x - second.x;
        let dy = last.y - second.y;
        let ok = -COORD_LIMIT <= last.x + dx && last.x + 3 * dx <= COORD_LIMIT
            && -COORD_LIMIT <= last.x + 3 * dx && last.x + dx <= COORD_LIMIT
            && -COORD_LIMIT <= last.y + dy && last.y + 3 * dy <= COORD_LIMIT
            && -COORD_LIMIT <= last.y + 3 * dy && last.y + dy <= COORD_LIMIT;
        proof {
            let t = feed_n(chain@, j as nat);
            assert(ok == feed_in_bounds(t));
            if !ok {
                if can_feed_n(chain@, k as nat) {
                    lemma_can_feed_n_monotone(chain@, (j + 1) as nat, k as nat);
                }
            } else {
                assert(feed_n(chain@, (j + 1) as nat) == feed_spec(t));
            }
        }
        if !ok {
            return false;
        }
        second = Point { x: last.x + 2 * dx, y: last.y + 2 * dy };
        last = Point { x: last.x + 3 * dx, y: last.y + 3 * dy };
        j = j + 1;
    }
    true
}

/// One tick of food pickup: every item strictly within the pickup
/// radius of the head is consumed — the chain is fed once per item —
/// and replaced by a fresh item jittered around the first spawn slot;
/// items out of reach stay where they are. The head itself never
/// moves here, so which items are picked is decided by the state on
/// entry. Callers establish the feeding headroom with
/// `can_feed_times`.
pub fn food_collision_system(snake: &mut PointList, foods: &mut Vec<Point>)
    requires
        old(snake)@.len() >= 2,
        chain_in_bounds(old(snake)@),
        foods_wf(old(foods)@),
        can_feed_n(old(snake)@, old(foods)@.len() as nat),
    ensures
        final(foods)@.len() == old(foods)@.len(),
        foods_wf(final(foods)@),
        chain_in_bounds(final(snake)@),
        forall|j: int| 0 <= j < old(foods)@.len() && !picked(old(snake)@[0], old(foods)@[j])
            ==> final(foods)@[j] == old(foods)@[j],
        forall|j: int| 0 <= j < old(foods)@.len() && picked(old(snake)@[0], old(foods)@[j])
            ==> in_spawn_box(0, #[trigger] final(foods)@[j]),
        final(snake)@ == feed_n(
            old(snake)@,
            hit_count_upto(old(snake)@[0], old(foods)@, old(foods)@.len() as int),
        ),
{
    let head = snake.0[0];
    let n = foods.len();
    let mut j: usize = 0;
    while j < n
        invariant
            n == foods@.len(),
            n == old(foods)@.len(),
            0 <= j <= n,
            head == old(snake)@[0],
            old(snake)@.len() >= 2,
            chain_in_bounds(old(snake)@),
            in_bounds(head),
            foods_wf(foods@),
            can_feed_n(old(snake)@, n as nat),
            forall|k: int| j <= k < n ==> foods@[k] == old(foods)@[k],
            forall|k: int| 0 <= k < j && !picked(head, old(foods)@[k]) ==> foods@[k] == old(
                foods,
            )@[k],
            forall|k: int| 0 <= k < j && picked(head, old(foods)@[k]) ==> in_spawn_box(
                0,
                #[trigger] foods@[k],
            ),
            snake@ == feed_n(old(snake)@, hit_count_upto(head, old(foods)@, j as int)),
            chain_in_bounds(snake@),
        decreases n - j,
    {
        let food = foods[j];
        proof {
            lemma_mul_bound(food.x - head.x, food.x - head.x, 2 * COORD_LIMIT);
            lemma_mul_bound(food.y - head.y, food.y - head.y, 2 * COORD_LIMIT);
        }
        let ddx = food.x - head.x;
        let ddy = food.y - head.y;
        let d2: i64 = ddx * ddx + ddy * ddy;
        if d2 < PICKUP_RADIUS * PICKUP_RADIUS {
            proof {
                let h = hit_count_upto(head, old(foods)@, j as int);
                lemma_hit_count_bound(head, old(foods)@, j as int);
                lemma_can_feed_n_monotone(old(snake)@, (h + 1) as nat, n as nat);
                lemma_feed_n_prefix(old(snake)@, h);
            }
            feed(snake);
            let fresh = Point {
                x: -50000 + rand_range(-30000, 30000),
                y: -50000 + rand_range(-30000, 30000),
            };
            foods[j] = fresh;
        }
        j = j + 1;
    }
}

} // verus!
