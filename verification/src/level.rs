//! A level: a named list of obstacle polygons. Content is validated
//! once on load — a malformed level is rejected outright rather than
//! degraded.

use vstd::prelude::*;
use crate::collision::obstacle_set_wf;
use crate::consts::COORD_LIMIT;
use crate::point_list::PointList;

verus! {

/// A level definition: its name and the obstacle polygons it places in
/// the world.
#[derive(Debug)]
pub struct Level {
    pub name: String,
    pub obstacles: Vec<PointList>,
}

/// A level is usable when every obstacle is a well-formed closed
/// polygon: at least three vertices, all within the coordinate bound.
pub open spec fn level_wf(level: Level) -> bool {
    obstacle_set_wf(level.obstacles@)
}

impl Level {
    /// Decides whether the level content is usable; loading fails fast
    /// on a level this rejects.
    pub fn validate(&self) -> (r: bool)
        ensures
            r == level_wf(*self),
    {
        let n = self.obstacles.len();
        let mut i: usize = 0;
        while i < n
            invariant
                n == self.obstacles@.len(),
                0 <= i <= n,
                forall|k: int| 0 <= k < i ==> (#[trigger] self.obstacles@[k])@.len() >= 3
                    && crate::point_list::chain_in_bounds(self.obstacles@[k]@),
            decreases n - i,
        {
            let polygon = &self.obstacles[i];
            let m = polygon.0.len();
            if m < 3 {
                proof {
                    assert((self.obstacles@[i as int])@.len() < 3);
                    assert(!obstacle_set_wf(self.obstacles@));
                }
                return false;
            }
            let mut j: usize = 0;
            while j < m
                invariant
                    n == self.obstacles@.len(),
                    0 <= i < n,
                    polygon@ == (self.obstacles@[i as int])@,
                    m == polygon@.len(),
                    0 <= j <= m,
                    forall|k: int| 0 <= k < j ==> crate::geometry::in_bounds(
                        #[trigger] polygon@[k],
                    ),
                decreases m - j,
            {
                let p = polygon.0[j];
                if p.x < -COORD_LIMIT || p.x > COORD_LIMIT || p.y < -COORD_LIMIT || p.y
                    > COORD_LIMIT {
                    proof {
                        assert(!crate::geometry::in_bounds((self.obstacles@[i as int])@[j as int]));
                        assert(!crate::point_list::chain_in_bounds((self.obstacles@[i as int])@));
                        assert(!obstacle_set_wf(self.obstacles@));
                    }
                    return false;
                }
                j = j + 1;
            }
            i = i + 1;
        }
        true
    }
}

} // verus!
