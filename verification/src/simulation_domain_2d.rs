//! The rectangular simulation domain, on the fixed-point grid.

use vstd::prelude::*;

verus! {

/// Largest magnitude allowed for a domain anchor coordinate or side length.
/// Chosen so that the bounding super-triangle (anchor minus one side, plus
/// six times the longest side) stays within `COORD_LIMIT`.
pub const DOMAIN_LIMIT: i64 = 131072;

/// An axis-aligned rectangle given by its lower-left anchor and side lengths.
#[derive(Debug, Clone, Copy)]
pub struct SimulationDomain2D {
    pub anchor: [i64; 2],
    pub sides: [i64; 2],
}

impl SimulationDomain2D {
    /// Anchor and sides small enough for the super-triangle construction,
    /// with strictly positive sides.
    pub open spec fn wf(self) -> bool {
        &&& -DOMAIN_LIMIT <= self.anchor[0] <= DOMAIN_LIMIT
        &&& -DOMAIN_LIMIT <= self.anchor[1] <= DOMAIN_LIMIT
        &&& 0 < self.sides[0] <= DOMAIN_LIMIT
        &&& 0 < self.sides[1] <= DOMAIN_LIMIT
    }

    pub fn new(a: [i64; 2], s: [i64; 2]) -> (r: SimulationDomain2D)
        ensures
            r.anchor == a,
            r.sides == s,
    {
        SimulationDomain2D { anchor: a, sides: s }
    }

    pub fn anchor(&self) -> (r: [i64; 2])
        ensures
            r == self.anchor,
    {
        self.anchor
    }

    pub fn sides(&self) -> (r: [i64; 2])
        ensures
            r == self.sides,
    {
        self.sides
    }

    /// Runtime check matching `wf`.
    pub fn is_wf(&self) -> (r: bool)
        ensures
            r == self.wf(),
    {
        -DOMAIN_LIMIT <= self.anchor[0] && self.anchor[0] <= DOMAIN_LIMIT && -DOMAIN_LIMIT
            <= self.anchor[1] && self.anchor[1] <= DOMAIN_LIMIT && 0 < self.sides[0]
            && self.sides[0] <= DOMAIN_LIMIT && 0 < self.sides[1] && self.sides[1] <= DOMAIN_LIMIT
    }
}

} // verus!
