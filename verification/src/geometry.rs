//! Geometry kernel: 2-D points in fixed-point milliunits, squared
//! distances, an integer square root, and the ray-casting
//! point-in-polygon test.

use vstd::prelude::*;
use crate::consts::COORD_LIMIT;

verus! {

/// A 2-D point (or vector) in world space, both coordinates in
/// milliunits.
#[derive(Clone, Copy, PartialEq, Eq, Structural, Debug)]
pub struct Point {
    pub x: i64,
    pub y: i64,
}

/// Both coordinates stay within `COORD_LIMIT`, which keeps every product
/// the kernel forms inside `i64`.
pub open spec fn in_bounds(p: Point) -> bool {
    -COORD_LIMIT <= p.x <= COORD_LIMIT && -COORD_LIMIT <= p.y <= COORD_LIMIT
}

/// Squared Euclidean distance between `p` and `q`.
pub open spec fn sq_dist(p: Point, q: Point) -> int {
    (q.x - p.x) * (q.x - p.x) + (q.y - p.y) * (q.y - p.y)
}

/// The product of two values bounded by `m` is bounded by `m * m`.
pub proof fn lemma_mul_bound(a: int, b: int, m: int) by (nonlinear_arith)
    requires
        -m <= a <= m,
        -m <= b <= m,
        0 <= m,
    ensures
        -(m * m) <= a * b <= m * m,
{
}

/// Squares are monotone over the non-negative integers.
pub proof fn lemma_sq_monotone(a: int, b: int) by (nonlinear_arith)
    requires
        0 <= a <= b,
    ensures
        a * a <= b * b,
{
}

/// Greatest integer whose square is at most `n` (zero when `n` is not
/// positive).
pub open spec fn isqrt_spec(n: int) -> int
    decreases n,
{
    if n <= 0 {
        0
    } else {
        let r = isqrt_spec(n - 1);
        if (r + 1) * (r + 1) <= n { r + 1 } else { r }
    }
}

/// `isqrt_spec` deserves its name: its square is at most `n`, the next
/// square is beyond `n`.
pub proof fn lemma_isqrt_spec_bounds(n: int)
    ensures
        0 <= isqrt_spec(n),
        n >= 0 ==> isqrt_spec(n) * isqrt_spec(n) <= n,
        n < (isqrt_spec(n) + 1) * (isqrt_spec(n) + 1),
    decreases n,
{
    if n > 0 {
        lemma_isqrt_spec_bounds(n - 1);
        let r = isqrt_spec(n - 1);
        if (r + 1) * (r + 1) <= n {
            assert((r + 2) * (r + 2) > n) by (nonlinear_arith)
                requires
                    0 <= r,
                    n - 1 < (r + 1) * (r + 1),
                    (r + 1) * (r + 1) <= n,
            ;
        }
    }
}

/// Any `r` whose square brackets `n` is `isqrt_spec(n)`.
pub proof fn lemma_isqrt_unique(n: int, r: int)
    requires
        0 <= r,
        r * r <= n,
        n < (r + 1) * (r + 1),
    ensures
        r == isqrt_spec(n),
{
    lemma_isqrt_spec_bounds(n);
    let q = isqrt_spec(n);
    if r < q {
        lemma_sq_monotone(r + 1, q);
    } else if q < r {
        lemma_sq_monotone(q + 1, r);
    }
}

/// Integer square root: the greatest `r` with `r * r <= n`.
pub fn isqrt(n: u64) -> (r: u64)
    ensures
        r * r <= n < (r + 1) * (r + 1),
        r == isqrt_spec(n as int),
{
    let mut lo: u64 = 0;
    let mut hi: u64 = 0x1_0000_0000;
    while hi - lo > 1
        invariant
            lo < hi <= 0x1_0000_0000,
            lo * lo <= n,
            n < hi * hi,
        decreases hi - lo,
    {
        let mid = lo + (hi - lo) / 2;
        proof {
            lemma_mul_bound(mid as int, mid as int, 0xffff_ffff);
        }
        if mid * mid <= n {
            lo = mid;
        } else {
            hi = mid;
        }
    }
    proof {
        lemma_isqrt_unique(n as int, lo as int);
    }
    lo
}

/// Truncating division (rounded toward zero) of `a` by a positive `b`:
/// what machine division of a signed numerator computes.
pub open spec fn tdiv(a: int, b: int) -> int {
    if a >= 0 { a / b } else { -((-a) / b) }
}

/// `c` lies (inclusively) between `a` and `b`, whichever way they are
/// ordered.
pub open spec fn between(c: int, a: int, b: int) -> bool {
    (a <= c <= b) || (b <= c <= a)
}

/// Truncating division shrinks magnitudes: a numerator within `amax`
/// yields a quotient within `amax / b`.
pub proof fn lemma_tdiv_bound(a: int, b: int, amax: int)
    requires
        0 < b,
        -amax <= a <= amax,
        0 <= amax,
    ensures
        -(amax / b) <= tdiv(a, b) <= amax / b,
{
    if a >= 0 {
        vstd::arithmetic::div_mod::lemma_div_is_ordered(a, amax, b);
        vstd::arithmetic::div_mod::lemma_div_is_ordered(0, a, b);
    } else {
        vstd::arithmetic::div_mod::lemma_div_is_ordered(-a, amax, b);
        vstd::arithmetic::div_mod::lemma_div_is_ordered(0, -a, b);
    }
}

/// Truncating division of a signed numerator by a positive divisor,
/// computed on magnitudes.
pub fn tdiv_i64(a: i64, b: i64) -> (r: i64)
    requires
        0 < b,
        a > i64::MIN,
    ensures
        r == tdiv(a as int, b as int),
        a >= 0 ==> 0 <= r <= a,
        a < 0 ==> a <= r <= 0,
{
    proof {
        if a >= 0 {
            vstd::arithmetic::div_mod::lemma_div_is_ordered_by_denominator(a as int, 1, b as int);
            vstd::arithmetic::div_mod::lemma_div_is_ordered(0, a as int, b as int);
        } else {
            vstd::arithmetic::div_mod::lemma_div_is_ordered_by_denominator(
                -(a as int),
                1,
                b as int,
            );
            vstd::arithmetic::div_mod::lemma_div_is_ordered(0, -(a as int), b as int);
        }
    }
    if a >= 0 {
        ((a as u64) / (b as u64)) as i64
    } else {
        -((((-a) as u64) / (b as u64)) as i64)
    }
}

/// The normal of the segment with direction vector `d`, rotated a
/// quarter turn counter-clockwise from `d`, normalized and scaled to
/// the half-thickness `half` (each coordinate rounded toward zero).
pub open spec fn segment_normal(d: Point, half: int) -> Point {
    let d2 = d.x * d.x + d.y * d.y;
    let dist = isqrt_spec(d2);
    Point { x: (tdiv(-d.y * half, dist)) as i64, y: (tdiv(d.x * half, dist)) as i64 }
}

/// A coordinate never exceeds the length of its vector: from
/// `v * v <= d2` and `dist = isqrt_spec(d2)` follows `|v| <= dist`.
proof fn lemma_component_le_norm(v: int, d2: int, dist: int)
    requires
        v * v <= d2,
        0 <= dist,
        dist * dist <= d2 < (dist + 1) * (dist + 1),
    ensures
        -dist <= v <= dist,
{
    if v > dist {
        lemma_sq_monotone(dist + 1, v);
    }
    if v < -dist {
        lemma_sq_monotone(dist + 1, -v);
        assert((-v) * (-v) == v * v) by (nonlinear_arith);
    }
}

/// One coordinate of a scaled unit vector: `v * half / dist`, rounded
/// toward zero. Since `|v| <= dist`, the result stays within `half`.
fn normal_component(v: i64, half: i64, dist: u64) -> (m: i64)
    requires
        -2 * COORD_LIMIT <= v <= 2 * COORD_LIMIT,
        0 <= half <= 100000,
        0 < dist,
        -(dist as int) <= v <= dist as int,
    ensures
        m == tdiv(v as int * half as int, dist as int),
        -half <= m <= half,
{
    let a: u64 = if v >= 0 { v as u64 } else { (-v) as u64 };
    proof {
        lemma_mul_bound(a as int, half as int, 2 * COORD_LIMIT);
        assert(2 * COORD_LIMIT == 2_000_000_000int);
        vstd::arithmetic::mul::lemma_mul_nonnegative(a as int, half as int);
        vstd::arithmetic::mul::lemma_mul_inequality(a as int, dist as int, half as int);
        vstd::arithmetic::div_mod::lemma_div_is_ordered(0, a as int * half as int, dist as int);
        vstd::arithmetic::div_mod::lemma_div_is_ordered(
            a as int * half as int,
            dist as int * half as int,
            dist as int,
        );
        vstd::arithmetic::div_mod::lemma_div_multiples_vanish(half as int, dist as int);
    }
    let q: u64 = a * (half as u64) / dist;
    let m: i64 = if v >= 0 { q as i64 } else { -(q as i64) };
    proof {
        if v < 0 {
            assert(-(v as int * half as int) == a as int * half as int) by (nonlinear_arith)
                requires
                    a as int == -(v as int),
            ;
            assert(v as int * half as int <= 0) by (nonlinear_arith)
                requires
                    v < 0,
                    half >= 0,
            ;
        }
    }
    m
}

/// Computes the scaled normal of the segment with direction `d`: the
/// quarter-turn of `d`, brought to length `half` (rounded toward
/// zero). Used to build the two ribbon edges of a chain.
pub fn segment_normal_exec(d: Point, half: i64) -> (n: Point)
    requires
        -2 * COORD_LIMIT <= d.x <= 2 * COORD_LIMIT,
        -2 * COORD_LIMIT <= d.y <= 2 * COORD_LIMIT,
        0 <= half <= 100000,
        !(d.x == 0 && d.y == 0),
    ensures
        n == segment_normal(d, half as int),
        -half <= n.x <= half,
        -half <= n.y <= half,
{
    proof {
        lemma_mul_bound(d.x as int, d.x as int, 2 * COORD_LIMIT);
        lemma_mul_bound(d.y as int, d.y as int, 2 * COORD_LIMIT);
        assert(2 * COORD_LIMIT == 2_000_000_000int);
        assert(d.x != 0 ==> d.x * d.x >= 1) by (nonlinear_arith);
        assert(d.y != 0 ==> d.y * d.y >= 1) by (nonlinear_arith);
        assert(d.x * d.x >= 0 && d.y * d.y >= 0) by (nonlinear_arith);
    }
    let d2: i64 = d.x * d.x + d.y * d.y;
    let dist: u64 = isqrt(d2 as u64);
    proof {
        lemma_component_le_norm(d.x as int, d2 as int, dist as int);
        lemma_component_le_norm(d.y as int, d2 as int, dist as int);
        assert(dist >= 1);
    }
    let nx = normal_component(-d.y, half, dist);
    let ny = normal_component(d.x, half, dist);
    Point { x: nx, y: ny }
}

/// Index of the vertex preceding `i` on a closed polygon of `len`
/// vertices, wrapping the first vertex back to the last.
pub open spec fn prev_vertex(len: int, i: int) -> int {
    if i == 0 { len - 1 } else { i - 1 }
}

/// Whether the edge from `a` to `b` crosses the horizontal ray running
/// right from `p`: the edge straddles `p`'s y coordinate, and the exact
/// x-intersection lies strictly to the right of `p`. The comparison is
/// the cross-multiplied form of
/// `p.x < a.x + (b.x - a.x) * (p.y - a.y) / (b.y - a.y)`,
/// so no rounding is involved.
pub open spec fn edge_crosses(p: Point, a: Point, b: Point) -> bool {
    ((a.y > p.y) != (b.y > p.y)) && {
        let lhs = (p.x - a.x) * (b.y - a.y);
        let rhs = (b.x - a.x) * (p.y - a.y);
        if b.y > a.y { lhs < rhs } else { lhs > rhs }
    }
}

/// Parity of ray crossings over the first `k` edges of the polygon,
/// edge `i` running from vertex `prev_vertex(i)` to vertex `i`.
pub open spec fn inside_upto(p: Point, poly: Seq<Point>, k: int) -> bool
    decreases k,
{
    if k <= 0 {
        false
    } else {
        inside_upto(p, poly, k - 1)
            != edge_crosses(p, poly[k - 1], poly[prev_vertex(poly.len() as int, k - 1)])
    }
}

/// `p` lies inside the closed polygon `poly` by the even-odd
/// (ray-casting) rule.
pub open spec fn point_in_polygon_spec(p: Point, poly: Seq<Point>) -> bool {
    inside_upto(p, poly, poly.len() as int)
}

/// Parity of straddling edges over the first `k` edges: the same walk
/// as `inside_upto`, counting every straddle whether or not it
/// crosses.
spec fn straddles_upto(p: Point, poly: Seq<Point>, k: int) -> bool
    decreases k,
{
    if k <= 0 {
        false
    } else {
        straddles_upto(p, poly, k - 1) != ((poly[k - 1].y > p.y) != (poly[prev_vertex(
            poly.len() as int,
            k - 1,
        )].y > p.y))
    }
}

/// Over the first `k` edges of the closed cycle, the straddle parity
/// is whether the last vertex and vertex `k - 1` sit on different
/// sides of the ray.
proof fn lemma_straddles_upto_parity(p: Point, poly: Seq<Point>, k: int)
    requires
        1 <= k <= poly.len(),
    ensures
        straddles_upto(p, poly, k) == ((poly[poly.len() - 1].y > p.y) != (poly[k - 1].y > p.y)),
    decreases k,
{
    if k > 1 {
        lemma_straddles_upto_parity(p, poly, k - 1);
    } else {
        assert(!straddles_upto(p, poly, 0));
        assert(prev_vertex(poly.len() as int, 0) == poly.len() - 1);
    }
}

/// Around the whole closed cycle, an edge going up past the ray must
/// be matched by one coming down: the straddle count is even.
proof fn lemma_straddles_cycle_even(p: Point, poly: Seq<Point>)
    ensures
        !straddles_upto(p, poly, poly.len() as int),
{
    if poly.len() >= 1 {
        lemma_straddles_upto_parity(p, poly, poly.len() as int);
    }
}

/// From strictly left of both endpoints, every straddling edge
/// crosses the rightward ray: its exact intersection lies between the
/// endpoints' x coordinates, to the right of the point.
proof fn lemma_edge_left_crosses(p: Point, a: Point, b: Point)
    requires
        p.x < a.x,
        p.x < b.x,
    ensures
        edge_crosses(p, a, b) == ((a.y > p.y) != (b.y > p.y)),
{
    if (a.y > p.y) != (b.y > p.y) {
        let dy = b.y - a.y;
        let t = p.y - a.y;
        if b.y > a.y {
            assert((p.x - a.x) * dy < (b.x - a.x) * t) by (nonlinear_arith)
                requires
                    p.x - a.x <= -1,
                    p.x - a.x < b.x - a.x,
                    0 <= t,
                    t + 1 <= dy,
            ;
        } else {
            assert((p.x - a.x) * dy > (b.x - a.x) * t) by (nonlinear_arith)
                requires
                    p.x - a.x <= -1,
                    p.x - a.x < b.x - a.x,
                    dy <= t,
                    t <= -1,
            ;
        }
    }
}

/// From strictly right of both endpoints, no edge crosses the
/// rightward ray: any intersection lies to the left of the point.
proof fn lemma_edge_right_no_cross(p: Point, a: Point, b: Point)
    requires
        a.x < p.x,
        b.x < p.x,
    ensures
        !edge_crosses(p, a, b),
{
    if (a.y > p.y) != (b.y > p.y) {
        let dy = b.y - a.y;
        let t = p.y - a.y;
        if b.y > a.y {
            assert((p.x - a.x) * dy > (b.x - a.x) * t) by (nonlinear_arith)
                requires
                    1 <= p.x - a.x,
                    b.x - a.x < p.x - a.x,
                    0 <= t,
                    t + 1 <= dy,
            ;
        } else {
            assert((p.x - a.x) * dy <= (b.x - a.x) * t) by (nonlinear_arith)
                requires
                    1 <= p.x - a.x,
                    b.x - a.x < p.x - a.x,
                    dy <= t,
                    t <= -1,
            ;
        }
    }
}

/// Crossing parity is false over edges none of which crosses.
proof fn lemma_inside_upto_no_cross(p: Point, poly: Seq<Point>, k: int)
    requires
        k <= poly.len(),
        forall|i: int| 0 <= i < poly.len() ==> !edge_crosses(
            p,
            #[trigger] poly[i],
            poly[prev_vertex(poly.len() as int, i)],
        ),
    ensures
        !inside_upto(p, poly, k),
    decreases k,
{
    if k > 0 {
        lemma_inside_upto_no_cross(p, poly, k - 1);
    }
}

/// Crossing parity equals straddle parity when every straddling edge
/// crosses.
proof fn lemma_inside_upto_eq_straddles(p: Point, poly: Seq<Point>, k: int)
    requires
        k <= poly.len(),
        forall|i: int| 0 <= i < poly.len() ==> edge_crosses(
            p,
            #[trigger] poly[i],
            poly[prev_vertex(poly.len() as int, i)],
        ) == ((poly[i].y > p.y) != (poly[prev_vertex(poly.len() as int, i)].y > p.y)),
    ensures
        inside_upto(p, poly, k) == straddles_upto(p, poly, k),
    decreases k,
{
    if k > 0 {
        lemma_inside_upto_eq_straddles(p, poly, k - 1);
    }
}

/// Containment law, separation part: a point strictly outside the
/// polygon's axis-aligned bounding box — above, below, left or right
/// of every vertex — is never inside, as any half-plane or winding
/// reading of containment also places it. Above or below, no edge
/// straddles the ray; to the right, a straddling edge's intersection
/// lies left of the point; to the left, every straddling edge
/// crosses, and a closed cycle straddles an even number of times.
pub proof fn lemma_point_outside_bbox_not_inside(p: Point, poly: Seq<Point>)
    requires
        (forall|i: int| 0 <= i < poly.len() ==> (#[trigger] poly[i]).y < p.y) || (forall|i: int|
            0 <= i < poly.len() ==> (#[trigger] poly[i]).y > p.y) || (forall|i: int|
            0 <= i < poly.len() ==> (#[trigger] poly[i]).x < p.x) || (forall|i: int|
            0 <= i < poly.len() ==> (#[trigger] poly[i]).x > p.x),
    ensures
        !point_in_polygon_spec(p, poly),
{
    let n = poly.len() as int;
    if n == 0 {
        return ;
    }
    if (forall|i: int| 0 <= i < poly.len() ==> (#[trigger] poly[i]).y < p.y) || (forall|i: int|
        0 <= i < poly.len() ==> (#[trigger] poly[i]).y > p.y) {
        assert forall|i: int| 0 <= i < n implies !edge_crosses(
            p,
            #[trigger] poly[i],
            poly[prev_vertex(n, i)],
        ) by {
            assert(0 <= prev_vertex(n, i) < n);
        }
        lemma_inside_upto_no_cross(p, poly, n);
    } else if forall|i: int| 0 <= i < poly.len() ==> (#[trigger] poly[i]).x < p.x {
        assert forall|i: int| 0 <= i < n implies !edge_crosses(
            p,
            #[trigger] poly[i],
            poly[prev_vertex(n, i)],
        ) by {
            assert(0 <= prev_vertex(n, i) < n);
            lemma_edge_right_no_cross(p, poly[i], poly[prev_vertex(n, i)]);
        }
        lemma_inside_upto_no_cross(p, poly, n);
    } else {
        assert forall|i: int| 0 <= i < n implies edge_crosses(
            p,
            #[trigger] poly[i],
            poly[prev_vertex(n, i)],
        ) == ((poly[i].y > p.y) != (poly[prev_vertex(n, i)].y > p.y)) by {
            assert(0 <= prev_vertex(n, i) < n);
            lemma_edge_left_crosses(p, poly[i], poly[prev_vertex(n, i)]);
        }
        lemma_inside_upto_eq_straddles(p, poly, n);
        lemma_straddles_cycle_even(p, poly);
    }
}

/// Ray-casting containment test: walks every edge (wrapping last to
/// first) and toggles on each crossing of the horizontal ray from
/// `point`. A horizontal edge never straddles the ray, so the exact
/// cross-multiplied comparison involves no division at all.
/// Degenerate polygons with fewer than 3 vertices are ruled out; the
/// caller guards.
pub fn point_in_polygon(point: &Point, polygon: &Vec<Point>) -> (r: bool)
    requires
        polygon@.len() >= 3,
        in_bounds(*point),
        forall|k: int| 0 <= k < polygon@.len() ==> in_bounds(#[trigger] polygon@[k]),
    ensures
        r == point_in_polygon_spec(*point, polygon@),
{
    let mut is_inside = false;
    let mut j: usize = polygon.len() - 1;
    let mut i: usize = 0;
    while i < polygon.len()
        invariant
            polygon@.len() >= 3,
            in_bounds(*point),
            forall|k: int| 0 <= k < polygon@.len() ==> in_bounds(#[trigger] polygon@[k]),
            i <= polygon@.len(),
            j == if i == 0 { polygon@.len() - 1 } else { i - 1 },
            is_inside == inside_upto(*point, polygon@, i as int),
        decreases polygon@.len() - i,
    {
        let pi = polygon[i];
        let pj = polygon[j];

        let straddles = (pi.y > point.y) != (pj.y > point.y);
        let crosses = if straddles {
            proof {
                lemma_mul_bound(point.x - pi.x, pj.y - pi.y, 2 * COORD_LIMIT);
                lemma_mul_bound(pj.x - pi.x, point.y - pi.y, 2 * COORD_LIMIT);
            }
            let lhs = (point.x - pi.x) * (pj.y - pi.y);
            let rhs = (pj.x - pi.x) * (point.y - pi.y);
            if pj.y > pi.y { lhs < rhs } else { lhs > rhs }
        } else {
            false
        };

        if crosses {
            is_inside = !is_inside;
        }
        j = i;
        i = i + 1;
    }
    is_inside
}

} // verus!
