//! Growth controller: a feeding event appends three points at the
//! tail, extrapolated colinearly from the last segment, so growth is
//! seamless with the existing trailing direction.

use vstd::prelude::*;
use crate::consts::COORD_LIMIT;
use crate::geometry::{Point, in_bounds};
use crate::point_list::{PointList, chain_in_bounds};

verus! {

/// The chain after one feeding: the old points, then three more at
/// `last + k * d` for `k = 1, 2, 3`, where `d` is the last segment
/// `last - second_last`.
pub open spec fn feed_spec(s: Seq<Point>) -> Seq<Point> {
    let last = s[s.len() - 1];
    let second_last = s[s.len() - 2];
    let dx = last.x - second_last.x;
    let dy = last.y - second_last.y;
    s + seq![
        Point { x: (last.x + dx) as i64, y: (last.y + dy) as i64 },
        Point { x: (last.x + 2 * dx) as i64, y: (last.y + 2 * dy) as i64 },
        Point { x: (last.x + 3 * dx) as i64, y: (last.y + 3 * dy) as i64 },
    ]
}

/// The three extrapolated tail points stay within the coordinate
/// bound.
pub open spec fn feed_in_bounds(s: Seq<Point>) -> bool {
    let last = s[s.len() - 1];
    let second_last = s[s.len() - 2];
    let dx = last.x - second_last.x;
    let dy = last.y - second_last.y;
    &&& -COORD_LIMIT <= last.x + dx && last.x + 3 * dx <= COORD_LIMIT
    &&& -COORD_LIMIT <= last.x + 3 * dx && last.x + dx <= COORD_LIMIT
    &&& -COORD_LIMIT <= last.y + dy && last.y + 3 * dy <= COORD_LIMIT
    &&& -COORD_LIMIT <= last.y + 3 * dy && last.y + dy <= COORD_LIMIT
}

/// Handles one feeding event: reads the last two points and appends
/// three more, each a further step of the last segment's direction
/// beyond the tail. The chain grows by exactly three points and no
/// existing point moves.
pub fn feed(chain: &mut PointList)
    requires
        old(chain)@.len() >= 2,
        chain_in_bounds(old(chain)@),
        feed_in_bounds(old(chain)@),
    ensures
        final(chain)@ =~= feed_spec(old(chain)@),
        final(chain)@.len() == old(chain)@.len() + 3,
        chain_in_bounds(final(chain)@),
{
    let n = chain.0.len();
    let last = chain.0[n - 1];
    let second_last = chain.0[n - 2];
    let dx = last.x - second_last.x;
    let dy = last.y - second_last.y;
    proof {
        // the middle extrapolation lies between the first and third
        assert(in_bounds(Point { x: (last.x + 2 * dx) as i64, y: (last.y + 2 * dy) as i64 }));
    }
    let p1 = Point { x: last.x + dx, y: last.y + dy };
    let p2 = Point { x: last.x + 2 * dx, y: last.y + 2 * dy };
    let p3 = Point { x: last.x + 3 * dx, y: last.y + 3 * dy };
    chain.push(p1);
    chain.push(p2);
    chain.push(p3);
}

/// Cross product of the vectors `a - o` and `b - o`: zero exactly when
/// `o`, `a` and `b` are colinear.
pub open spec fn cross(o: Point, a: Point, b: Point) -> int {
    (a.x - o.x) * (b.y - o.y) - (a.y - o.y) * (b.x - o.x)
}

/// Growth law: feeding extends the chain by exactly three points, the
/// old points stay where they were, and each new point lies on the
/// line carried by the pre-feeding last segment — all three are
/// colinear with the old second-last and last points.
pub proof fn lemma_feed_colinear(s: Seq<Point>)
    requires
        s.len() >= 2,
        chain_in_bounds(s),
        feed_in_bounds(s),
    ensures
        feed_spec(s).len() == s.len() + 3,
        forall|i: int| 0 <= i < s.len() ==> feed_spec(s)[i] == s[i],
        cross(s[s.len() - 2], s[s.len() - 1], feed_spec(s)[s.len() as int]) == 0,
        cross(s[s.len() - 2], s[s.len() - 1], feed_spec(s)[s.len() as int + 1]) == 0,
        cross(s[s.len() - 2], s[s.len() - 1], feed_spec(s)[s.len() as int + 2]) == 0,
{
    let last = s[s.len() - 1];
    let second_last = s[s.len() - 2];
    let dx = last.x - second_last.x;
    let dy = last.y - second_last.y;
    assert(dx * ((last.y + dy) - second_last.y) - dy * ((last.x + dx) - second_last.x) == 0)
        by (nonlinear_arith)
        requires
            dx == last.x - second_last.x,
            dy == last.y - second_last.y,
    ;
    assert(dx * ((last.y + 2 * dy) - second_last.y) - dy * ((last.x + 2 * dx) - second_last.x)
        == 0) by (nonlinear_arith)
        requires
            dx == last.x - second_last.x,
            dy == last.y - second_last.y,
    ;
    assert(dx * ((last.y + 3 * dy) - second_last.y) - dy * ((last.x + 3 * dx) - second_last.x)
        == 0) by (nonlinear_arith)
        requires
            dx == last.x - second_last.x,
            dy == last.y - second_last.y,
    ;
}

} // verus!
