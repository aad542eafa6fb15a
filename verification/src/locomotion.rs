//! Locomotion engine: the head moves along the current heading, and
//! every trailing point is relaxed toward its (already updated)
//! predecessor once their distance exceeds the target spacing — the
//! rubber-band follow that gives the chain its organic movement.

use vstd::prelude::*;
use vstd::arithmetic::div_mod::{lemma_div_is_ordered, lemma_div_multiples_vanish};
use vstd::arithmetic::mul::{lemma_mul_inequality, lemma_mul_is_commutative};
use crate::consts::{DISTANCE_BETWEEN_POINTS, COORD_LIMIT};
use crate::geometry::{
    Point, in_bounds, sq_dist, isqrt, isqrt_spec, lemma_isqrt_spec_bounds, lemma_mul_bound,
    lemma_sq_monotone, tdiv, between,
};
use crate::point_list::{PointList, chain_in_bounds};

verus! {

/// Where one follow step leaves a trailing point `p` whose predecessor
/// now stands at `target`: while their distance does not exceed the
/// target spacing the point stays put (a zero-length direction moves
/// nothing); otherwise it moves `s` toward the predecessor along the
/// straight line, each coordinate of the offset rounded toward zero.
pub open spec fn follow_step_spec(p: Point, target: Point, s: int) -> Point {
    let dx = target.x - p.x;
    let dy = target.y - p.y;
    let d2 = sq_dist(p, target);
    if d2 > DISTANCE_BETWEEN_POINTS * DISTANCE_BETWEEN_POINTS {
        let dist = isqrt_spec(d2);
        Point { x: (p.x + tdiv(dx * s, dist)) as i64, y: (p.y + tdiv(dy * s, dist)) as i64 }
    } else {
        p
    }
}

/// The offset `tdiv(a * s, d)` of a follow step never overshoots: it
/// lies between zero and `a`.
proof fn lemma_tdiv_between(a: int, s: int, d: int)
    requires
        0 <= s <= d,
        0 < d,
    ensures
        a >= 0 ==> 0 <= tdiv(a * s, d) <= a,
        a < 0 ==> a <= tdiv(a * s, d) <= 0,
{
    let m = if a >= 0 { a } else { -a };
    lemma_mul_inequality(s, d, m);
    lemma_mul_is_commutative(s, m);
    lemma_mul_is_commutative(d, m);
    lemma_div_is_ordered(0, m * s, d);
    lemma_div_is_ordered(m * s, m * d, d);
    lemma_div_multiples_vanish(m, d);
    if a < 0 {
        assert(-(a * s) == m * s) by (nonlinear_arith)
            requires
                m == -a,
        ;
    }
}

/// Offset of one follow step along a single axis: the signed gap `d` to
/// the predecessor, scaled by `s / dist` with the result rounded toward
/// zero. Never overshoots the gap.
fn scaled_offset(d: i64, s: i64, dist: u64) -> (m: i64)
    requires
        -2 * COORD_LIMIT <= d <= 2 * COORD_LIMIT,
        0 <= s,
        0 < dist,
        s as int <= dist as int,
        dist <= 4 * COORD_LIMIT,
    ensures
        m == tdiv(d as int * s as int, dist as int),
        d >= 0 ==> 0 <= m <= d,
        d < 0 ==> d <= m <= 0,
{
    let a: u64 = if d >= 0 { d as u64 } else { (-d) as u64 };
    proof {
        lemma_mul_bound(a as int, s as int, 4 * COORD_LIMIT);
        lemma_mul_inequality(s as int, dist as int, a as int);
        lemma_mul_is_commutative(s as int, a as int);
        lemma_mul_is_commutative(dist as int, a as int);
        lemma_div_is_ordered(0, a as int * s as int, dist as int);
        lemma_div_is_ordered(a as int * s as int, a as int * dist as int, dist as int);
        lemma_div_multiples_vanish(a as int, dist as int);
        assert(4 * COORD_LIMIT == 4_000_000_000int);
        assert(0 <= a as int <= 4_000_000_000int);
        assert(0 <= s as int <= 4_000_000_000int);
        assert(a as int * s as int <= 16_000_000_000_000_000_000);
    }
    let q: u64 = a * (s as u64) / dist;
    let m: i64 = if d >= 0 { q as i64 } else { -(q as i64) };
    proof {
        if d < 0 {
            assert(-(d as int * s as int) == a as int * s as int) by (nonlinear_arith)
                requires
                    a as int == -(d as int),
            ;
            assert(d as int * s as int <= 0) by (nonlinear_arith)
                requires
                    d < 0,
                    s >= 0,
            ;
        }
    }
    m
}

/// One step of the follow behavior for a single trailing point.
///
/// The distance comparison is exact (squared distances), and the
/// movement offset is the straight-line direction scaled to `s`, each
/// coordinate rounded toward zero; the result never leaves the
/// axis-aligned box spanned by the point and its target.
pub fn follow_step(p: Point, target: Point, s: i64) -> (r: Point)
    requires
        in_bounds(p),
        in_bounds(target),
        0 <= s <= DISTANCE_BETWEEN_POINTS,
    ensures
        r == follow_step_spec(p, target, s as int),
        in_bounds(r),
        (p.x <= r.x <= target.x) || (target.x <= r.x <= p.x),
        (p.y <= r.y <= target.y) || (target.y <= r.y <= p.y),
{
    let dx = target.x - p.x;
    let dy = target.y - p.y;
    proof {
        lemma_mul_bound(dx as int, dx as int, 2 * COORD_LIMIT);
        lemma_mul_bound(dy as int, dy as int, 2 * COORD_LIMIT);
    }
    let d2: i64 = dx * dx + dy * dy;
    if d2 > DISTANCE_BETWEEN_POINTS * DISTANCE_BETWEEN_POINTS {
        let dist: u64 = isqrt(d2 as u64);
        proof {
            // the distance exceeds the target spacing, so its root
            // reaches the spacing, and stays within the coordinate box
            if dist < DISTANCE_BETWEEN_POINTS as u64 {
                lemma_sq_monotone(dist as int + 1, DISTANCE_BETWEEN_POINTS as int);
            }
            if dist > 4 * COORD_LIMIT {
                lemma_sq_monotone(4 * COORD_LIMIT, dist as int);
            }
        }
        let mx = scaled_offset(dx, s, dist);
        let my = scaled_offset(dy, s, dist);
        Point { x: p.x + mx, y: p.y + my }
    } else {
        p
    }
}

/// The first `i + 1` points of a chain after one locomotion pass,
/// given the head's new position: point 0 is `head`, and each later
/// point follows the already updated position of its predecessor.
pub open spec fn follow_chain(s: Seq<Point>, head: Point, step: int, i: int) -> Seq<Point>
    decreases i,
{
    if i <= 0 {
        seq![head]
    } else {
        let prefix = follow_chain(s, head, step, i - 1);
        prefix.push(follow_step_spec(s[i], prefix[i - 1], step))
    }
}

/// The whole chain after one locomotion pass: the head moved by
/// `(dx, dy)`, every other point by one follow step toward its
/// updated predecessor, in chain order; an empty chain is left alone.
pub open spec fn locomote_spec(s: Seq<Point>, dx: int, dy: int, step: int) -> Seq<Point> {
    if s.len() == 0 {
        s
    } else {
        follow_chain(
            s,
            Point { x: (s[0].x + dx) as i64, y: (s[0].y + dy) as i64 },
            step,
            s.len() - 1,
        )
    }
}

/// A chain whose points each follow their updated predecessor is the
/// `follow_chain` of its own head, prefix by prefix.
proof fn lemma_follow_chain_pointwise(s: Seq<Point>, t: Seq<Point>, step: int, i: int)
    requires
        s.len() == t.len(),
        1 <= t.len(),
        0 <= i < t.len(),
        forall|k: int| 1 <= k < t.len() ==> t[k] == follow_step_spec(s[k], t[k - 1], step),
    ensures
        follow_chain(s, t[0], step, i) =~= t.take(i + 1),
    decreases i,
{
    if i > 0 {
        lemma_follow_chain_pointwise(s, t, step, i - 1);
    }
}

/// Advances the whole chain one tick: the head by the displacement
/// `(dx, dy)` (already scaled by speed and frame time), then every
/// other point, in chain order, by one follow step toward the already
/// updated position of its predecessor. An empty chain is left alone.
pub fn update_position(point_list: &mut PointList, dx: i64, dy: i64, s: i64)
    requires
        chain_in_bounds(old(point_list)@),
        0 <= s <= DISTANCE_BETWEEN_POINTS,
        old(point_list)@.len() > 0 ==> in_bounds(
            Point { x: (old(point_list)@[0].x + dx) as i64, y: (old(point_list)@[0].y + dy) as i64 },
        ),
        -2 * COORD_LIMIT <= dx <= 2 * COORD_LIMIT,
        -2 * COORD_LIMIT <= dy <= 2 * COORD_LIMIT,
    ensures
        final(point_list)@.len() == old(point_list)@.len(),
        chain_in_bounds(final(point_list)@),
        old(point_list)@.len() == 0 ==> final(point_list)@ =~= old(point_list)@,
        old(point_list)@.len() > 0 ==> final(point_list)@[0] == (Point {
            x: (old(point_list)@[0].x + dx) as i64,
            y: (old(point_list)@[0].y + dy) as i64,
        }),
        forall|i: int| 1 <= i < old(point_list)@.len() ==> final(point_list)@[i]
            == follow_step_spec(old(point_list)@[i], final(point_list)@[i - 1], s as int),
        forall|i: int| 1 <= i < old(point_list)@.len() ==> between(
            (#[trigger] final(point_list)@[i]).x as int,
            old(point_list)@[i].x as int,
            final(point_list)@[i - 1].x as int,
        ) && between(
            final(point_list)@[i].y as int,
            old(point_list)@[i].y as int,
            final(point_list)@[i - 1].y as int,
        ),
        final(point_list)@ =~= locomote_spec(old(point_list)@, dx as int, dy as int, s as int),
{
    let n = point_list.0.len();
    if n == 0 {
        return;
    }
    let head = point_list.0[0];
    point_list.0[0] = Point { x: head.x + dx, y: head.y + dy };
    let mut i: usize = 1;
    while i < n
        invariant
            n == point_list@.len(),
            n == old(point_list)@.len(),
            1 <= i <= n,
            chain_in_bounds(point_list@),
            0 <= s <= DISTANCE_BETWEEN_POINTS,
            point_list@[0] == (Point {
                x: (old(point_list)@[0].x + dx) as i64,
                y: (old(point_list)@[0].y + dy) as i64,
            }),
            forall|k: int| i <= k < n ==> point_list@[k] == old(point_list)@[k],
            forall|k: int| 1 <= k < i ==> point_list@[k]
                == follow_step_spec(old(point_list)@[k], point_list@[k - 1], s as int),
            forall|k: int| 1 <= k < i ==> between(
                (#[trigger] point_list@[k]).x as int,
                old(point_list)@[k].x as int,
                point_list@[k - 1].x as int,
            ) && between(
                point_list@[k].y as int,
                old(point_list)@[k].y as int,
                point_list@[k - 1].y as int,
            ),
        decreases n - i,
    {
        let prev = point_list.0[i - 1];
        let cur = point_list.0[i];
        let stepped = follow_step(cur, prev, s);
        point_list.0[i] = stepped;
        i = i + 1;
    }
    proof {
        lemma_follow_chain_pointwise(old(point_list)@, point_list@, s as int, n as int - 1);
        assert(point_list@.take(n as int) =~= point_list@);
    }
}

/// A value between zero and `b` (on `b`'s side of zero), taken away
/// from `b`, leaves a square no larger than `b`'s.
proof fn lemma_shrink_sq(b: int, m: int) by (nonlinear_arith)
    requires
        (0 <= m <= b) || (b <= m <= 0),
    ensures
        (b - m) * (b - m) <= b * b,
        (m != 0 && m * m <= b * b) ==> (b - m) * (b - m) < b * b,
{
}

/// Relaxation law, resting part: a trailing point already within the
/// target spacing of its predecessor does not move at all.
pub proof fn lemma_follow_step_resting(p: Point, target: Point, s: int)
    requires
        sq_dist(p, target) <= DISTANCE_BETWEEN_POINTS * DISTANCE_BETWEEN_POINTS,
    ensures
        follow_step_spec(p, target, s) == p,
{
}

/// Relaxation law, monotone part: one follow step never increases the
/// distance of a trailing point to its predecessor — each coordinate of
/// the gap keeps its sign and can only shrink. The point also stays
/// within the coordinate bound.
pub proof fn lemma_follow_step_monotone(p: Point, target: Point, s: int)
    requires
        in_bounds(p),
        in_bounds(target),
        0 <= s <= DISTANCE_BETWEEN_POINTS,
    ensures
        sq_dist(follow_step_spec(p, target, s), target) <= sq_dist(p, target),
        in_bounds(follow_step_spec(p, target, s)),
{
    let dx = target.x - p.x;
    let dy = target.y - p.y;
    let d2 = sq_dist(p, target);
    if d2 > DISTANCE_BETWEEN_POINTS * DISTANCE_BETWEEN_POINTS {
        let dist = isqrt_spec(d2);
        lemma_isqrt_spec_bounds(d2);
        if dist < DISTANCE_BETWEEN_POINTS {
            lemma_sq_monotone(dist + 1, DISTANCE_BETWEEN_POINTS as int);
        }
        let mx = tdiv(dx * s, dist);
        let my = tdiv(dy * s, dist);
        lemma_tdiv_between(dx, s, dist);
        lemma_tdiv_between(dy, s, dist);
        lemma_shrink_sq(dx, mx);
        lemma_shrink_sq(dy, my);
        let r = follow_step_spec(p, target, s);
        assert(target.x - r.x == dx - mx);
        assert(target.y - r.y == dy - my);
    }
}

/// A value between zero and `b` (on `b`'s side of zero) and not zero
/// itself, taken away from `b`, shrinks the square by at least `|b|`.
proof fn lemma_shrink_sq_amount(b: int, m: int) by (nonlinear_arith)
    requires
        (0 <= m <= b) || (b <= m <= 0),
        m != 0,
    ensures
        (b - m) * (b - m) <= b * b - (if b >= 0 { b } else { -b }),
{
}

/// Relaxation law, progress part: while the gap to the predecessor
/// exceeds the target spacing, a follow step with a non-trivial speed
/// shrinks the squared gap by more than half the target spacing — so
/// a point behind a resting predecessor closes to within the spacing
/// in a bounded number of ticks.
pub proof fn lemma_follow_step_progress(p: Point, target: Point, s: int)
    requires
        in_bounds(p),
        in_bounds(target),
        2 <= s <= DISTANCE_BETWEEN_POINTS,
        sq_dist(p, target) > DISTANCE_BETWEEN_POINTS * DISTANCE_BETWEEN_POINTS,
    ensures
        sq_dist(follow_step_spec(p, target, s), target) < sq_dist(p, target),
        sq_dist(follow_step_spec(p, target, s), target) <= sq_dist(p, target)
            - DISTANCE_BETWEEN_POINTS / 2,
{
    let dx = target.x - p.x;
    let dy = target.y - p.y;
    let d2 = sq_dist(p, target);
    let dist = isqrt_spec(d2);
    lemma_isqrt_spec_bounds(d2);
    if dist < DISTANCE_BETWEEN_POINTS {
        lemma_sq_monotone(dist + 1, DISTANCE_BETWEEN_POINTS as int);
    }
    let mx = tdiv(dx * s, dist);
    let my = tdiv(dy * s, dist);
    lemma_tdiv_between(dx, s, dist);
    lemma_tdiv_between(dy, s, dist);
    let ax = if dx >= 0 { dx } else { -dx };
    let ay = if dy >= 0 { dy } else { -dy };
    // the dominant coordinate of the gap exceeds half the distance ...
    let am = if ax >= ay { ax } else { ay };
    assert(d2 <= 2 * (am * am)) by (nonlinear_arith)
        requires
            d2 == dx * dx + dy * dy,
            am >= dx && am >= -dx && am >= dy && am >= -dy,
            am >= 0,
    ;
    assert(2 * am > dist) by (nonlinear_arith)
        requires
            d2 <= 2 * (am * am),
            dist * dist <= d2,
            dist >= 2,
            am >= 0,
    ;
    // ... so with s >= 2 its offset is at least one, and its share of
    // the squared distance strictly shrinks
    assert(am * s >= 2 * am) by (nonlinear_arith)
        requires
            s >= 2,
            am >= 0,
    ;
    lemma_div_is_ordered(dist, am * s, dist);
    lemma_div_multiples_vanish(1, dist);
    assert(dist * 1 == dist);
    assert((am * s) / dist >= 1);
    if ax >= ay {
        if dx >= 0 {
            assert(dx * s == am * s);
        } else {
            assert(-(dx * s) == am * s) by (nonlinear_arith)
                requires
                    am == -dx,
            ;
            assert(dx * s < 0) by (nonlinear_arith)
                requires
                    dx < 0,
                    s >= 2,
            ;
        }
        assert(mx != 0);
        lemma_shrink_sq_amount(dx, mx);
        lemma_shrink_sq(dy, my);
        assert(mx * mx <= dx * dx) by (nonlinear_arith)
            requires
                (0 <= mx <= dx) || (dx <= mx <= 0),
        ;
    } else {
        if dy >= 0 {
            assert(dy * s == am * s);
        } else {
            assert(-(dy * s) == am * s) by (nonlinear_arith)
                requires
                    am == -dy,
            ;
            assert(dy * s < 0) by (nonlinear_arith)
                requires
                    dy < 0,
                    s >= 2,
            ;
        }
        assert(my != 0);
        lemma_shrink_sq(dx, mx);
        lemma_shrink_sq_amount(dy, my);
        assert(my * my <= dy * dy) by (nonlinear_arith)
            requires
                (0 <= my <= dy) || (dy <= my <= 0),
        ;
    }
    // the dominant coordinate, above half the distance and thus above
    // half the target spacing, is what the squared gap loses at least
    assert(2 * am > dist && dist >= DISTANCE_BETWEEN_POINTS);
    assert(am > DISTANCE_BETWEEN_POINTS / 2);
    let r = follow_step_spec(p, target, s);
    assert(target.x - r.x == dx - mx);
    assert(target.y - r.y == dy - my);
}

/// The trailing point after `n` follow steps toward a resting
/// predecessor.
pub open spec fn follow_iter(p: Point, target: Point, s: int, n: nat) -> Point
    decreases n,
{
    if n == 0 {
        p
    } else {
        follow_step_spec(follow_iter(p, target, s, (n - 1) as nat), target, s)
    }
}

/// Relaxation law, convergence part: toward a resting predecessor the
/// squared gap drops by at least half the target spacing per step
/// until it is within the spacing, and then stays there — so it is
/// within the spacing after a bounded number of steps, however far
/// the point started out.
pub proof fn lemma_follow_converges(p: Point, target: Point, s: int, n: nat)
    requires
        in_bounds(p),
        in_bounds(target),
        2 <= s <= DISTANCE_BETWEEN_POINTS,
    ensures
        in_bounds(follow_iter(p, target, s, n)),
        sq_dist(follow_iter(p, target, s, n), target) <= if sq_dist(p, target) - n * (
        DISTANCE_BETWEEN_POINTS / 2) > DISTANCE_BETWEEN_POINTS * DISTANCE_BETWEEN_POINTS {
            sq_dist(p, target) - n * (DISTANCE_BETWEEN_POINTS / 2)
        } else {
            DISTANCE_BETWEEN_POINTS * DISTANCE_BETWEEN_POINTS
        },
    decreases n,
{
    if n > 0 {
        lemma_follow_converges(p, target, s, (n - 1) as nat);
        let q = follow_iter(p, target, s, (n - 1) as nat);
        if sq_dist(q, target) > DISTANCE_BETWEEN_POINTS * DISTANCE_BETWEEN_POINTS {
            lemma_follow_step_progress(q, target, s);
            lemma_follow_step_monotone(q, target, s);
        } else {
            lemma_follow_step_resting(q, target, s);
        }
    }
}

} // verus!
