//! The point chain: an ordered, mutable sequence of 2-D points. Index 0
//! is the head of a snake; for an obstacle the list is read as a closed
//! polygon.

use vstd::prelude::*;
use crate::geometry::{Point, in_bounds};

verus! {

/// Every point of the sequence lies within the coordinate bound.
pub open spec fn chain_in_bounds(s: Seq<Point>) -> bool {
    forall|i: int| 0 <= i < s.len() ==> in_bounds(#[trigger] s[i])
}

/// An ordered chain of 2-D points: the snake's body (head first) or an
/// obstacle's boundary polygon.
#[derive(Debug)]
pub struct PointList(pub Vec<Point>);

impl View for PointList {
    type V = Seq<Point>;

    open spec fn view(&self) -> Seq<Point> {
        self.0@
    }
}

impl PointList {
    /// An empty chain.
    pub fn new() -> (r: Self)
        ensures
            r@ =~= Seq::<Point>::empty(),
    {
        PointList(Vec::new())
    }

    /// Appends `point` at the tail.
    pub fn push(&mut self, point: Point)
        ensures
            final(self)@ =~= old(self)@.push(point),
    {
        self.0.push(point)
    }

    /// Drops every point past the first `len`; a no-op when the chain is
    /// already that short.
    pub fn truncate(&mut self, len: usize)
        ensures
            len <= old(self)@.len() ==> final(self)@ =~= old(self)@.take(len as int),
            len > old(self)@.len() ==> final(self)@ =~= old(self)@,
    {
        self.0.truncate(len)
    }

    /// Number of points in the chain.
    pub fn len(&self) -> (r: usize)
        ensures
            r == self@.len(),
    {
        self.0.len()
    }
}

} // verus!
