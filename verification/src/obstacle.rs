//! The obstacle entity: an immutable closed polygon presented as a
//! triangle fan anchored at its first vertex.

use vstd::prelude::*;
use crate::geometry::Point;
use crate::point_list::PointList;

verus! {

/// Marker for an obstacle entity.
#[derive(Clone, Copy, Debug)]
pub struct Obstacle;

impl Obstacle {
    /// Builds the filled-polygon mesh of an obstacle boundary: the
    /// vertices are the polygon's own points, the indices fan out from
    /// vertex 0 over every adjacent vertex pair. A degenerate list of
    /// fewer than three points yields an empty mesh.
    pub fn get_indices_and_vertices(point_list: &PointList) -> (r: (Vec<u32>, Vec<Point>))
        requires
            point_list@.len() <= 100000,
        ensures
            point_list@.len() < 3 ==> r.0@.len() == 0 && r.1@.len() == 0,
            point_list@.len() >= 3 ==> r.1@ =~= point_list@,
            point_list@.len() >= 3 ==> r.0@.len() == 3 * (point_list@.len() - 2),
            point_list@.len() >= 3 ==> forall|k: int|
                0 <= k < point_list@.len() - 2 ==> #[trigger] r.0@[3 * k] == 0,
            point_list@.len() >= 3 ==> forall|k: int|
                0 <= k < point_list@.len() - 2 ==> #[trigger] r.0@[3 * k + 1] == k + 1,
            point_list@.len() >= 3 ==> forall|k: int|
                0 <= k < point_list@.len() - 2 ==> #[trigger] r.0@[3 * k + 2] == k + 2,
    {
        let mut vertices: Vec<Point> = Vec::new();
        let mut indices: Vec<u32> = Vec::new();
        let n = point_list.0.len();

        if n < 3 {
            return (indices, vertices);
        }

        let mut i: usize = 0;
        while i < n
            invariant
                n == point_list@.len(),
                0 <= i <= n,
                vertices@.len() == i,
                forall|k: int| 0 <= k < i ==> #[trigger] vertices@[k] == point_list@[k],
            decreases n - i,
        {
            vertices.push(point_list.0[i]);
            i = i + 1;
        }

        let mut j: usize = 1;
        while j < n - 1
            invariant
                3 <= n <= 100000,
                1 <= j <= n - 1,
                indices@.len() == 3 * (j - 1),
                forall|k: int| 0 <= k < j - 1 ==> #[trigger] indices@[3 * k] == 0,
                forall|k: int| 0 <= k < j - 1 ==> #[trigger] indices@[3 * k + 1] == k + 1,
                forall|k: int| 0 <= k < j - 1 ==> #[trigger] indices@[3 * k + 2] == k + 2,
            decreases n - j,
        {
            let ghost prev = indices@;
            indices.push(0);
            indices.push(j as u32);
            indices.push((j + 1) as u32);
            proof {
                let kk = j as int - 1;
                assert(indices@ =~= prev + seq![0u32, j as u32, (j + 1) as u32]);
                assert(indices@[3 * kk] == 0);
                assert(indices@[3 * kk + 1] == kk + 1);
                assert(indices@[3 * kk + 2] == kk + 2);
            }
            j = j + 1;
        }

        (indices, vertices)
    }
}

} // verus!
