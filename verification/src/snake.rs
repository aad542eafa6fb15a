//! The snake entity: its canonical starting chain and the ribbon mesh
//! (a triangle strip of two vertices per chain point, offset by the
//! segment normals) that presents the chain.

use vstd::prelude::*;
use crate::consts::{DISTANCE_BETWEEN_POINTS, INITIAL_LENGTH, PI_MRAD, SNAKE_THICKNESS};
use crate::direction::{Direction, dir_wf};
use crate::geometry::{Point, in_bounds, segment_normal, segment_normal_exec};
use crate::point_list::{PointList, chain_in_bounds};

verus! {

/// Marker for the snake entity.
#[derive(Clone, Copy, Debug)]
pub struct Snake;

/// No two consecutive chain points coincide, so every segment has a
/// direction and a normal.
pub open spec fn segments_nonzero(s: Seq<Point>) -> bool {
    forall|i: int| 0 <= i < s.len() - 1 ==> !((#[trigger] s[i]).x == s[i + 1].x && s[i].y == s[i
        + 1].y)
}

/// The ribbon normal at point `i`: intermediate points use the forward
/// segment's normal; the last point, having no next point, borrows the
/// normal of the preceding segment.
pub open spec fn normal_at(s: Seq<Point>, i: int) -> Point {
    if i < s.len() - 1 {
        segment_normal(
            Point { x: (s[i + 1].x - s[i].x) as i64, y: (s[i + 1].y - s[i].y) as i64 },
            SNAKE_THICKNESS as int / 2,
        )
    } else {
        segment_normal(
            Point { x: (s[i].x - s[i - 1].x) as i64, y: (s[i].y - s[i - 1].y) as i64 },
            SNAKE_THICKNESS as int / 2,
        )
    }
}

/// One of the two ribbon vertices at point `i`: the point pushed to
/// either side by the ribbon normal.
pub open spec fn ribbon_vertex(s: Seq<Point>, i: int, side: int) -> Point {
    let p = s[i];
    let n = normal_at(s, i);
    if side == 0 {
        Point { x: (p.x - n.x) as i64, y: (p.y - n.y) as i64 }
    } else {
        Point { x: (p.x + n.x) as i64, y: (p.y + n.y) as i64 }
    }
}

impl Snake {
    /// Builds the ribbon mesh of a chain: per point the two vertices
    /// `p - n` and `p + n` with `n` the point's ribbon normal, and per
    /// adjacent vertex pair the six triangle-strip indices.
    pub fn get_indices_and_vertices(point_list: &PointList) -> (r: (Vec<u32>, Vec<Point>))
        requires
            point_list@.len() >= 2,
            point_list@.len() <= 100000,
            chain_in_bounds(point_list@),
            segments_nonzero(point_list@),
        ensures
            r.1@.len() == 2 * point_list@.len(),
            forall|i: int| 0 <= i < point_list@.len() ==> #[trigger] r.1@[2 * i] == ribbon_vertex(
                point_list@,
                i,
                0,
            ),
            forall|i: int| 0 <= i < point_list@.len() ==> #[trigger] r.1@[2 * i + 1]
                == ribbon_vertex(point_list@, i, 1),
            r.0@.len() == 6 * (point_list@.len() - 1),
            forall|k: int| 0 <= k < point_list@.len() - 1 ==> #[trigger] r.0@[6 * k] == 2 * k,
            forall|k: int| 0 <= k < point_list@.len() - 1 ==> #[trigger] r.0@[6 * k + 1] == 2 * k
                + 1,
            forall|k: int| 0 <= k < point_list@.len() - 1 ==> #[trigger] r.0@[6 * k + 2] == 2 * k
                + 2,
            forall|k: int| 0 <= k < point_list@.len() - 1 ==> #[trigger] r.0@[6 * k + 3] == 2 * k
                + 2,
            forall|k: int| 0 <= k < point_list@.len() - 1 ==> #[trigger] r.0@[6 * k + 4] == 2 * k
                + 1,
            forall|k: int| 0 <= k < point_list@.len() - 1 ==> #[trigger] r.0@[6 * k + 5] == 2 * k
                + 3,
    {
        let n = point_list.0.len();
        let half = SNAKE_THICKNESS / 2;
        let mut vertices: Vec<Point> = Vec::new();
        let mut i: usize = 0;
        while i < n
            invariant
                n == point_list@.len(),
                2 <= n <= 100000,
                chain_in_bounds(point_list@),
                segments_nonzero(point_list@),
                half == SNAKE_THICKNESS / 2,
                0 <= i <= n,
                vertices@.len() == 2 * i,
                forall|k: int| 0 <= k < i ==> #[trigger] vertices@[2 * k] == ribbon_vertex(
                    point_list@,
                    k,
                    0,
                ),
                forall|k: int| 0 <= k < i ==> #[trigger] vertices@[2 * k + 1] == ribbon_vertex(
                    point_list@,
                    k,
                    1,
                ),
            decreases n - i,
        {
            let p = point_list.0[i];
            let d = if i < n - 1 {
                let next = point_list.0[i + 1];
                Point { x: next.x - p.x, y: next.y - p.y }
            } else {
                let prev = point_list.0[i - 1];
                Point { x: p.x - prev.x, y: p.y - prev.y }
            };
            let normal = segment_normal_exec(d, half);
            let ghost vprev = vertices@;
            vertices.push(Point { x: p.x - normal.x, y: p.y - normal.y });
            vertices.push(Point { x: p.x + normal.x, y: p.y + normal.y });
            proof {
                assert(vertices@ =~= vprev + seq![
                    Point { x: (p.x - normal.x) as i64, y: (p.y - normal.y) as i64 },
                    Point { x: (p.x + normal.x) as i64, y: (p.y + normal.y) as i64 },
                ]);
                assert(vertices@[2 * (i as int)] == ribbon_vertex(point_list@, i as int, 0));
                assert(vertices@[2 * (i as int) + 1] == ribbon_vertex(point_list@, i as int, 1));
            }
            i = i + 1;
        }
        let mut indices: Vec<u32> = Vec::new();
        let mut k: usize = 0;
        while k < n - 1
            invariant
                2 <= n <= 100000,
                0 <= k <= n - 1,
                indices@.len() == 6 * k,
                forall|j: int| 0 <= j < k ==> #[trigger] indices@[6 * j] == 2 * j,
                forall|j: int| 0 <= j < k ==> #[trigger] indices@[6 * j + 1] == 2 * j + 1,
                forall|j: int| 0 <= j < k ==> #[trigger] indices@[6 * j + 2] == 2 * j + 2,
                forall|j: int| 0 <= j < k ==> #[trigger] indices@[6 * j + 3] == 2 * j + 2,
                forall|j: int| 0 <= j < k ==> #[trigger] indices@[6 * j + 4] == 2 * j + 1,
                forall|j: int| 0 <= j < k ==> #[trigger] indices@[6 * j + 5] == 2 * j + 3,
            decreases n - 1 - k,
        {
            let ghost prev = indices@;
            let base = (k as u32) * 2;
            indices.push(base);
            indices.push(base + 1);
            indices.push(base + 2);
            indices.push(base + 2);
            indices.push(base + 1);
            indices.push(base + 3);
            proof {
                let kk = k as int;
                assert(indices@ =~= prev + seq![
                    base,
                    (base + 1) as u32,
                    (base + 2) as u32,
                    (base + 2) as u32,
                    (base + 1) as u32,
                    (base + 3) as u32,
                ]);
                assert(indices@[6 * kk] == 2 * kk);
                assert(indices@[6 * kk + 1] == 2 * kk + 1);
                assert(indices@[6 * kk + 2] == 2 * kk + 2);
                assert(indices@[6 * kk + 3] == 2 * kk + 2);
                assert(indices@[6 * kk + 4] == 2 * kk + 1);
                assert(indices@[6 * kk + 5] == 2 * kk + 3);
            }
            k = k + 1;
        }
        (indices, vertices)
    }

    /// The components of a freshly spawned snake: a straight horizontal
    /// chain of `INITIAL_LENGTH` points spaced the target distance
    /// apart, headed along the default direction.
    pub fn get_default_entity_components() -> (r: (Snake, PointList, Direction))
        ensures
            r.1@.len() == INITIAL_LENGTH,
            forall|i: int| 0 <= i < INITIAL_LENGTH ==> #[trigger] r.1@[i] == (Point {
                x: (i * DISTANCE_BETWEEN_POINTS) as i64,
                y: 0,
            }),
            chain_in_bounds(r.1@),
            segments_nonzero(r.1@),
            r.2.0 == PI_MRAD,
            dir_wf(r.2),
    {
        let mut points: Vec<Point> = Vec::new();
        let mut i: usize = 0;
        while i < INITIAL_LENGTH
            invariant
                0 <= i <= INITIAL_LENGTH,
                points@.len() == i,
                forall|k: int| 0 <= k < i ==> #[trigger] points@[k] == (Point {
                    x: (k * DISTANCE_BETWEEN_POINTS) as i64,
                    y: 0,
                }),
            decreases INITIAL_LENGTH - i,
        {
            points.push(Point { x: (i as i64) * DISTANCE_BETWEEN_POINTS, y: 0 });
            i = i + 1;
        }
        (Snake, PointList(points), Direction(PI_MRAD))
    }
}

} // verus!
