//! Incremental 2D Delaunay triangulation and Voronoi tessellation on a
//! bounded rectangular domain, with optional periodic boundaries.
//!
//! All geometry is carried out on fixed-point (integer) coordinates, so the
//! orientation and in-circle predicates are exact and the mesh invariants can
//! be stated and checked precisely. Callers that work in floating point pick
//! a grid resolution and scale their coordinates onto it.

use vstd::prelude::*;

pub mod delaunay2d;
pub mod direction;
pub mod geometry;
pub mod simulation_domain_2d;
pub mod utils;
pub mod voronoi2d;

pub use geometry::Vertex2D;
pub use simulation_domain_2d::SimulationDomain2D;

verus! {

/// The non-recoverable failures the builder can surface. They indicate
/// malformed input or a broken mesh; callers may catch them and abandon the
/// triangulation.
#[derive(Debug, Clone, Copy, PartialEq, Eq, Structural)]
pub enum DelaunayError {
    /// A point-location walk fell off the bounding super-triangle.
    OutsideDomain,
    /// Coincident or colinear points produced a zero-area triangle.
    Degenerate,
    /// A structural invariant of the mesh or of the Voronoi dual failed.
    Invariant,
    /// The flip queue grew past its safety bound.
    QueueOverflow,
}

} // verus!
