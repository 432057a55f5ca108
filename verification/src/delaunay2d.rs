//! The incremental Delaunay triangulation: vertex and triangle arenas, the
//! bounding super-triangle fenced by three dummy triangles, walk-based point
//! location, 1-to-3 point insertion, and the edge-flip restoration loop.
//!
//! The mesh is represented entirely by integer indices. Triangle slots 0, 1
//! and 2 are permanent "dummy" triangles that fence the hull of the
//! super-triangle; a neighbour index below 3 means "off the hull".

use vstd::prelude::*;
use vstd::pervasive::VecAdditionalExecFns;
use std::collections::VecDeque;
use crate::DelaunayError;
use crate::direction::{Direction, direction_as_vector, direction_to_sort_list_id, direction_vector, sort_list_id};
use crate::geometry::{COORD_LIMIT, orient2d, in_circle, orient_2d, in_circle_2d};
use crate::simulation_domain_2d::SimulationDomain2D;
use crate::utils::random_choose;

verus! {

/// Hard cap on the vertex arena.
pub const NV_MAX: usize = 2097152;

/// Hard cap on the triangle arena.
pub const NT_MAX: usize = 4194304;

/// Cap on the number of point-location steps in one walk.
pub const WALK_LIMIT: usize = 16777216;

/// Cap on the number of triangles examined by one restoration sweep.
pub const FLIP_LIMIT: usize = 16777216;

/// Cap on the number of steps of one one-ring walk.
pub const RING_LIMIT: usize = 16777216;

/// The seed value of a vertex's squared search radius: wide enough to cover
/// any domain, so that a fresh periodic build mirrors every generator.
pub const SEED_RADIUS_SQ: i64 = 4611686018427387904;

/// What a vertex of the triangulation stands for.
#[derive(Debug, Clone, Copy, PartialEq, Eq, Structural)]
pub enum VertexKind {
    /// A corner of the bounding super-triangle.
    BoundingCorner,
    /// An inserted generator.
    Real,
    /// A periodic mirror image of a real generator.
    Mirror,
}

/// A vertex of the triangulation, with a back reference to one triangle that
/// contains it.
#[derive(Debug, Clone, Copy)]
pub struct DelaunayVertex2D {
    pub x: i64,
    pub y: i64,
    /// Index of one incident triangle (-1 while unset).
    pub triangle: i32,
    /// The slot this vertex occupies in that triangle (-1 while unset).
    pub index_in_triangle: i8,
    pub kind: VertexKind,
    /// For a ghost: the translation that produced it; `Center` otherwise.
    pub direction: Direction,
    /// Squared search radius, in squared `VOR_SCALE` units.
    pub search_radius_sq: i64,
    /// Bitmask (by sort-list id) of the directions this real generator has
    /// already been mirrored in.
    pub ghosts_added: u16,
}

/// A triangle of the arena. `neighbours[s]` is the triangle opposite the
/// vertex at slot `s`, and `index_in_neighbours[s]` the slot this triangle
/// occupies in that neighbour's own `neighbours` array.
#[derive(Debug, Clone, Copy)]
pub struct DelaunayTriangle2D {
    pub vertices: [i32; 3],
    pub neighbours: [i32; 3],
    pub index_in_neighbours: [i8; 3],
}

impl DelaunayTriangle2D {
    /// All nine fields are in range for arenas of `nv` vertices and `nt`
    /// triangles.
    pub open spec fn valid(self, nv: int, nt: int) -> bool {
        &&& 0 <= self.vertices[0] < nv
        &&& 0 <= self.vertices[1] < nv
        &&& 0 <= self.vertices[2] < nv
        &&& 0 <= self.neighbours[0] < nt
        &&& 0 <= self.neighbours[1] < nt
        &&& 0 <= self.neighbours[2] < nt
        &&& 0 <= self.index_in_neighbours[0] < 3
        &&& 0 <= self.index_in_neighbours[1] < 3
        &&& 0 <= self.index_in_neighbours[2] < 3
    }

    /// Range constraints for the three dummy triangles, whose unset fields
    /// hold -1.
    pub open spec fn valid_dummy(self, nv: int, nt: int) -> bool {
        &&& -1 <= self.vertices[0] < nv
        &&& -1 <= self.vertices[1] < nv
        &&& -1 <= self.vertices[2] < nv
        &&& -1 <= self.neighbours[0] < nt
        &&& -1 <= self.neighbours[1] < nt
        &&& -1 <= self.neighbours[2] < nt
        &&& -1 <= self.index_in_neighbours[0] < 3
        &&& -1 <= self.index_in_neighbours[1] < 3
        &&& -1 <= self.index_in_neighbours[2] < 3
    }

    pub fn update_neighbours(
        &mut self,
        n0: i32,
        n1: i32,
        n2: i32,
        idx_in_n0: i8,
        idx_in_n1: i8,
        idx_in_n2: i8,
    )
        ensures
            final(self).vertices == old(self).vertices,
            final(self).neighbours@ == seq![n0, n1, n2],
            final(self).index_in_neighbours@ == seq![idx_in_n0, idx_in_n1, idx_in_n2],
    {
        self.neighbours = [n0, n1, n2];
        self.index_in_neighbours = [idx_in_n0, idx_in_n1, idx_in_n2];
        proof {
            assert(self.neighbours@ =~= seq![n0, n1, n2]);
            assert(self.index_in_neighbours@ =~= seq![idx_in_n0, idx_in_n1, idx_in_n2]);
        }
    }

    pub fn update_neighbour(&mut self, n: i32, idx_in_n: i8, i: i8)
        requires
            0 <= i < 3,
        ensures
            final(self).vertices == old(self).vertices,
            final(self).neighbours@ == old(self).neighbours@.update(i as int, n),
            final(self).index_in_neighbours@ == old(self).index_in_neighbours@.update(
                i as int, idx_in_n,
            ),
    {
        self.neighbours[i as usize] = n;
        self.index_in_neighbours[i as usize] = idx_in_n;
    }
}

/// The triangulation: both arenas, the super-triangle box, and the walk and
/// flip-queue state.
#[derive(Debug)]
pub struct DelaunayTriangulation2D {
    pub vertices: Vec<DelaunayVertex2D>,
    pub triangles: Vec<DelaunayTriangle2D>,
    /// Lower-left corner of the super-triangle box.
    pub anchor: [i64; 2],
    /// Side length of the super-triangle legs.
    pub side: i64,
    pub domain: SimulationDomain2D,
    pub is_periodic: bool,
    /// Number of real generators inserted so far (ghosts excluded).
    pub n_vertices: usize,
    /// The triangle a point-location walk starts from.
    pub current_triangle_idx: i32,
    /// The most recently created vertex.
    pub current_vertex_idx: i32,
    /// FIFO of triangles suspected of violating the Delaunay criterion.
    pub triangles_to_check: VecDeque<i32>,
}

impl DelaunayTriangulation2D {
    pub open spec fn nv(self) -> int {
        self.vertices@.len() as int
    }

    pub open spec fn nt(self) -> int {
        self.triangles@.len() as int
    }

    pub open spec fn tri(self, t: int) -> DelaunayTriangle2D {
        self.triangles@[t]
    }

    pub open spec fn vert(self, v: int) -> DelaunayVertex2D {
        self.vertices@[v]
    }

    /// x coordinate of the vertex at slot `k` of triangle `t`.
    pub open spec fn cx(self, t: int, k: int) -> int {
        self.vert(self.tri(t).vertices[k] as int).x as int
    }

    /// y coordinate of the vertex at slot `k` of triangle `t`.
    pub open spec fn cy(self, t: int, k: int) -> int {
        self.vert(self.tri(t).vertices[k] as int).y as int
    }

    /// Doubled signed area of triangle `t`.
    pub open spec fn tri_orient(self, t: int) -> int {
        orient2d(self.cx(t, 0), self.cy(t, 0), self.cx(t, 1), self.cy(t, 1), self.cx(t, 2),
            self.cy(t, 2))
    }

    pub open spec fn vertex_ok(v: DelaunayVertex2D, nt: int) -> bool {
        &&& -COORD_LIMIT <= v.x <= COORD_LIMIT
        &&& -COORD_LIMIT <= v.y <= COORD_LIMIT
        &&& -1 <= v.triangle < nt
        &&& -1 <= v.index_in_triangle < 3
        &&& 0 <= v.search_radius_sq
    }

    /// The structural well-formedness of the arenas: every index in range,
    /// every non-dummy triangle positively oriented, the flip queue drained.
    pub open spec fn wf(self) -> bool {
        &&& self.wf_core()
        &&& self.triangles_to_check@.len() == 0
    }

    /// Everything `wf` asks except that the flip queue be drained: queued
    /// indices only have to be valid non-dummy triangles.
    pub open spec fn wf_core(self) -> bool {
        &&& 4 <= self.nt() <= NT_MAX
        &&& 3 <= self.nv() <= NV_MAX
        &&& self.n_vertices + 3 <= self.nv()
        &&& forall|i: int|
            0 <= i < self.nv() ==> Self::vertex_ok(#[trigger] self.vertices@[i], self.nt())
        &&& forall|t: int| 3 <= t < self.nt() ==> (#[trigger] self.tri(t)).valid(self.nv(), self.nt())
        &&& forall|t: int| 3 <= t < self.nt() ==> #[trigger] self.tri_orient(t) > 0
        &&& forall|t: int| 0 <= t < 3 ==> (#[trigger] self.tri(t)).valid_dummy(self.nv(), self.nt())
        &&& 3 <= self.current_triangle_idx < self.nt()
        &&& 0 <= self.current_vertex_idx < self.nv()
        &&& forall|i: int|
            0 <= i < self.triangles_to_check@.len() ==> 3 <= #[trigger] self.triangles_to_check@[i]
                < self.nt()
        &&& self.domain.wf()
    }

    /// The fields of a vertex that never change once it is created.
    pub open spec fn same_but_backref(a: DelaunayVertex2D, b: DelaunayVertex2D) -> bool {
        &&& b.x == a.x
        &&& b.y == a.y
        &&& b.kind == a.kind
        &&& b.direction == a.direction
    }

    /// No vertex is lost and no existing vertex changes its point data; only
    /// back references may move.
    pub open spec fn preserves_points(pre: Self, post: Self) -> bool {
        &&& pre.nv() <= post.nv()
        &&& forall|i: int|
            0 <= i < pre.nv() ==> Self::same_but_backref(
                pre.vertices@[i],
                #[trigger] post.vertices@[i],
            )
    }

    /// The per-vertex bookkeeping (ghost bits and search radii) of the
    /// existing vertices stays as it is.
    pub open spec fn preserves_bookkeeping(pre: Self, post: Self) -> bool {
        forall|i: int|
            0 <= i < pre.nv() ==> {
                &&& (#[trigger] post.vertices@[i]).ghosts_added == pre.vertices@[i].ghosts_added
                &&& post.vertices@[i].search_radius_sq == pre.vertices@[i].search_radius_sq
            }
    }

    /// The super-triangle box and the configuration fields stay as they are.
    pub open spec fn same_frame(pre: Self, post: Self) -> bool {
        &&& post.domain == pre.domain
        &&& post.side == pre.side
        &&& post.anchor == pre.anchor
        &&& post.is_periodic == pre.is_periodic
    }

    /// The query point (px, py) lies strictly inside triangle `t`.
    pub open spec fn strictly_inside(self, t: int, px: int, py: int) -> bool {
        &&& orient2d(self.cx(t, 0), self.cy(t, 0), self.cx(t, 1), self.cy(t, 1), px, py) > 0
        &&& orient2d(self.cx(t, 1), self.cy(t, 1), self.cx(t, 2), self.cy(t, 2), px, py) > 0
        &&& orient2d(self.cx(t, 2), self.cy(t, 2), self.cx(t, 0), self.cy(t, 0), px, py) > 0
    }

    /// The validity part of well-formedness alone: arena sizes, index
    /// ranges, and positive orientation of every non-dummy triangle.
    pub open spec fn arenas_ok(self) -> bool {
        &&& 4 <= self.nt() <= NT_MAX
        &&& 3 <= self.nv() <= NV_MAX
        &&& forall|i: int|
            0 <= i < self.nv() ==> Self::vertex_ok(#[trigger] self.vertices@[i], self.nt())
        &&& forall|t: int| 3 <= t < self.nt() ==> (#[trigger] self.tri(t)).valid(self.nv(), self.nt())
        &&& forall|t: int| 3 <= t < self.nt() ==> #[trigger] self.tri_orient(t) > 0
        &&& forall|t: int| 0 <= t < 3 ==> (#[trigger] self.tri(t)).valid_dummy(self.nv(), self.nt())
    }

    /// A state with the same triangle records and the same vertex records
    /// has valid, positively oriented arenas whenever the first one does.
    /// This discharges the frame obligation of every mutator that only
    /// touches fields outside the two arenas.
    pub proof fn lemma_arenas_stable(a: Self, b: Self)
        requires
            a.arenas_ok(),
            b.triangles@ == a.triangles@,
            b.vertices@ == a.vertices@,
        ensures
            b.arenas_ok(),
    {
        assert forall|t2: int| 3 <= t2 < b.nt() implies (#[trigger] b.tri(t2)).valid(
            b.nv(),
            b.nt(),
        ) by {
            assert(b.tri(t2) == a.tri(t2));
        }
        assert forall|t2: int| 3 <= t2 < b.nt() implies #[trigger] b.tri_orient(t2) > 0 by {
            assert(b.tri(t2) == a.tri(t2));
            assert(b.tri_orient(t2) == a.tri_orient(t2));
        }
        assert forall|t2: int| 0 <= t2 < 3 implies (#[trigger] b.tri(t2)).valid_dummy(
            b.nv(),
            b.nt(),
        ) by {
            assert(b.tri(t2) == a.tri(t2));
        }
        assert forall|i: int| 0 <= i < b.nv() implies Self::vertex_ok(
            #[trigger] b.vertices@[i],
            b.nt(),
        ) by {
            assert(b.vertices@[i] == a.vertices@[i]);
        }
    }

    /// As `lemma_arenas_stable`, for a mutator that rewrites one vertex
    /// record without moving its point: validity needs only the new record's
    /// field ranges, and no orientation changes.
    pub proof fn lemma_arenas_stable_vertex_update(a: Self, b: Self, v: int)
        requires
            a.arenas_ok(),
            b.triangles@ == a.triangles@,
            b.vertices@.len() == a.vertices@.len(),
            0 <= v < a.nv(),
            forall|i: int|
                0 <= i < a.nv() && i != v ==> #[trigger] b.vertices@[i] == a.vertices@[i],
            b.vertices@[v].x == a.vertices@[v].x,
            b.vertices@[v].y == a.vertices@[v].y,
            Self::vertex_ok(b.vertices@[v], b.nt()),
        ensures
            b.arenas_ok(),
    {
        assert forall|i: int| 0 <= i < b.nv() implies Self::vertex_ok(
            #[trigger] b.vertices@[i],
            b.nt(),
        ) by {
            if i != v {
                assert(b.vertices@[i] == a.vertices@[i]);
                assert(Self::vertex_ok(a.vertices@[i], a.nt()));
            }
        }
        assert forall|t2: int| 3 <= t2 < b.nt() implies (#[trigger] b.tri(t2)).valid(
            b.nv(),
            b.nt(),
        ) by {
            assert(b.tri(t2) == a.tri(t2));
        }
        assert forall|t2: int| 0 <= t2 < 3 implies (#[trigger] b.tri(t2)).valid_dummy(
            b.nv(),
            b.nt(),
        ) by {
            assert(b.tri(t2) == a.tri(t2));
        }
        assert forall|t2: int| 3 <= t2 < b.nt() implies #[trigger] b.tri_orient(t2) > 0 by {
            assert(b.tri(t2) == a.tri(t2));
            assert(a.tri(t2).valid(a.nv(), a.nt()));
            assert(b.cx(t2, 0) == a.cx(t2, 0));
            assert(b.cy(t2, 0) == a.cy(t2, 0));
            assert(b.cx(t2, 1) == a.cx(t2, 1));
            assert(b.cy(t2, 1) == a.cy(t2, 1));
            assert(b.cx(t2, 2) == a.cx(t2, 2));
            assert(b.cy(t2, 2) == a.cy(t2, 2));
            assert(b.tri_orient(t2) == a.tri_orient(t2));
        }
    }

    /// Doubled signed area that the record `rec` would have in this arena.
    pub open spec fn rec_orient(self, rec: DelaunayTriangle2D) -> int {
        orient2d(
            self.vert(rec.vertices[0] as int).x as int,
            self.vert(rec.vertices[0] as int).y as int,
            self.vert(rec.vertices[1] as int).x as int,
            self.vert(rec.vertices[1] as int).y as int,
            self.vert(rec.vertices[2] as int).x as int,
            self.vert(rec.vertices[2] as int).y as int,
        )
    }

    /// Overwrites the triangle record at `at` with a fully stitched,
    /// positively oriented record.
    fn set_tri_checked(&mut self, at: i32, rec: DelaunayTriangle2D)
        requires
            old(self).arenas_ok(),
            3 <= at < old(self).nt(),
            rec.valid(old(self).nv(), old(self).nt()),
            old(self).rec_orient(rec) > 0,
        ensures
            final(self).arenas_ok(),
            final(self).triangles@ == old(self).triangles@.update(at as int, rec),
            final(self).vertices == old(self).vertices,
            final(self).triangles_to_check == old(self).triangles_to_check,
            final(self).current_triangle_idx == old(self).current_triangle_idx,
            final(self).current_vertex_idx == old(self).current_vertex_idx,
            final(self).n_vertices == old(self).n_vertices,
            Self::same_frame(*old(self), *final(self)),
    {
        self.triangles.set(at as usize, rec);
        proof {
            assert forall|t: int| 3 <= t < self.nt() implies (#[trigger] self.tri(t)).valid(
                self.nv(),
                self.nt(),
            ) by {
                if t != at {
                    assert(self.tri(t) == old(self).tri(t));
                }
            }
            assert forall|t: int| 3 <= t < self.nt() implies #[trigger] self.tri_orient(t) > 0 by {
                if t == at {
                    assert(self.tri_orient(t) == old(self).rec_orient(rec));
                } else {
                    assert(self.tri(t) == old(self).tri(t));
                    assert(self.tri_orient(t) == old(self).tri_orient(t));
                }
            }
            assert forall|t: int| 0 <= t < 3 implies (#[trigger] self.tri(t)).valid_dummy(
                self.nv(),
                self.nt(),
            ) by {
                assert(self.tri(t) == old(self).tri(t));
            }
        }
    }

    /// Appends a fully stitched, positively oriented triangle record and
    /// returns its index.
    fn push_tri(&mut self, rec: DelaunayTriangle2D) -> (r: i32)
        requires
            old(self).arenas_ok(),
            old(self).nt() < NT_MAX,
            rec.valid(old(self).nv(), old(self).nt() + 1),
            old(self).rec_orient(rec) > 0,
        ensures
            r == old(self).nt(),
            final(self).arenas_ok(),
            final(self).triangles@ == old(self).triangles@.push(rec),
            final(self).vertices == old(self).vertices,
            final(self).triangles_to_check == old(self).triangles_to_check,
            final(self).current_triangle_idx == old(self).current_triangle_idx,
            final(self).current_vertex_idx == old(self).current_vertex_idx,
            final(self).n_vertices == old(self).n_vertices,
            Self::same_frame(*old(self), *final(self)),
    {
        let r = self.triangles.len() as i32;
        self.triangles.push(rec);
        proof {
            assert forall|t: int| 3 <= t < self.nt() implies (#[trigger] self.tri(t)).valid(
                self.nv(),
                self.nt(),
            ) by {
                if t < old(self).nt() {
                    assert(self.tri(t) == old(self).tri(t));
                    assert(old(self).tri(t).valid(old(self).nv(), old(self).nt()));
                }
            }
            assert forall|t: int| 3 <= t < self.nt() implies #[trigger] self.tri_orient(t) > 0 by {
                if t < old(self).nt() {
                    assert(self.tri(t) == old(self).tri(t));
                    assert(self.tri_orient(t) == old(self).tri_orient(t));
                } else {
                    assert(self.tri_orient(t) == old(self).rec_orient(rec));
                }
            }
            assert forall|t: int| 0 <= t < 3 implies (#[trigger] self.tri(t)).valid_dummy(
                self.nv(),
                self.nt(),
            ) by {
                assert(self.tri(t) == old(self).tri(t));
            }
            assert forall|i: int| 0 <= i < self.nv() implies Self::vertex_ok(
                #[trigger] self.vertices@[i],
                self.nt(),
            ) by {
                assert(Self::vertex_ok(old(self).vertices@[i], old(self).nt()));
            }
        }
        r
    }

    /// Redirects one neighbour slot of the triangle at `at` (which may be a
    /// dummy) to the non-dummy triangle `n`.
    fn set_neighbour(&mut self, at: i32, slot: i8, n: i32, idx_in_n: i8)
        requires
            old(self).arenas_ok(),
            0 <= at < old(self).nt(),
            0 <= slot < 3,
            3 <= n < old(self).nt(),
            0 <= idx_in_n < 3,
        ensures
            final(self).arenas_ok(),
            final(self).triangles@.len() == old(self).triangles@.len(),
            forall|j: int|
                0 <= j < final(self).nt() && j != at ==> #[trigger] final(self).tri(j) == old(self).tri(j),
            final(self).tri(at as int).vertices == old(self).tri(at as int).vertices,
            final(self).tri(at as int).neighbours@ == old(self).tri(at as int).neighbours@.update(
                slot as int,
                n,
            ),
            final(self).tri(at as int).index_in_neighbours@ == old(self).tri(
                at as int,
            ).index_in_neighbours@.update(slot as int, idx_in_n),
            final(self).vertices == old(self).vertices,
            final(self).triangles_to_check == old(self).triangles_to_check,
            final(self).current_triangle_idx == old(self).current_triangle_idx,
            final(self).current_vertex_idx == old(self).current_vertex_idx,
            final(self).n_vertices == old(self).n_vertices,
            Self::same_frame(*old(self), *final(self)),
    {
        let mut rec = self.triangles[at as usize];
        rec.update_neighbour(n, idx_in_n, slot);
        self.triangles.set(at as usize, rec);
        proof {
            assert forall|t: int| 3 <= t < self.nt() implies (#[trigger] self.tri(t)).valid(
                self.nv(),
                self.nt(),
            ) by {
                if t != at {
                    assert(self.tri(t) == old(self).tri(t));
                } else {
                    assert(old(self).tri(t).valid(old(self).nv(), old(self).nt()));
                }
            }
            assert forall|t: int| 3 <= t < self.nt() implies #[trigger] self.tri_orient(t) > 0 by {
                if t != at {
                    assert(self.tri(t) == old(self).tri(t));
                }
                assert(self.tri(t).vertices == old(self).tri(t).vertices);
                assert(self.tri_orient(t) == old(self).tri_orient(t));
            }
            assert forall|t: int| 0 <= t < 3 implies (#[trigger] self.tri(t)).valid_dummy(
                self.nv(),
                self.nt(),
            ) by {
                if t != at {
                    assert(self.tri(t) == old(self).tri(t));
                } else {
                    assert(old(self).tri(t).valid_dummy(old(self).nv(), old(self).nt()));
                }
            }
        }
    }

    /// Points the back reference of vertex `v` at slot `k` of triangle `t`.
    fn set_vertex_backref(&mut self, v: i32, t: i32, k: i8)
        requires
            old(self).arenas_ok(),
            0 <= v < old(self).nv(),
            0 <= t < old(self).nt(),
            0 <= k < 3,
        ensures
            final(self).arenas_ok(),
            final(self).vertices@.len() == old(self).vertices@.len(),
            forall|i: int|
                0 <= i < final(self).nv() && i != v ==> #[trigger] final(self).vertices@[i] == old(
                    self,
                ).vertices@[i],
            Self::same_but_backref(old(self).vertices@[v as int], final(self).vertices@[v as int]),
            Self::preserves_bookkeeping(*old(self), *final(self)),
            final(self).vert(v as int).triangle == t,
            final(self).vert(v as int).index_in_triangle == k,
            final(self).triangles == old(self).triangles,
            final(self).triangles_to_check == old(self).triangles_to_check,
            final(self).current_triangle_idx == old(self).current_triangle_idx,
            final(self).current_vertex_idx == old(self).current_vertex_idx,
            final(self).n_vertices == old(self).n_vertices,
            Self::same_frame(*old(self), *final(self)),
    {
        let mut rec = self.vertices[v as usize];
        rec.triangle = t;
        rec.index_in_triangle = k;
        self.vertices.set(v as usize, rec);
        proof {
            Self::lemma_arenas_stable_vertex_update(*old(self), *self, v as int);
        }
    }

    /// Queues triangle `t` for a Delaunay check.
    fn queue_push(&mut self, t: i32)
        requires
            old(self).arenas_ok(),
            3 <= t < old(self).nt(),
        ensures
            final(self).arenas_ok(),
            final(self).triangles_to_check@ == old(self).triangles_to_check@.push(t),
            final(self).triangles == old(self).triangles,
            final(self).vertices == old(self).vertices,
            final(self).current_triangle_idx == old(self).current_triangle_idx,
            final(self).current_vertex_idx == old(self).current_vertex_idx,
            final(self).n_vertices == old(self).n_vertices,
            Self::same_frame(*old(self), *final(self)),
    {
        self.triangles_to_check.push_back(t);
        proof {
            Self::lemma_arenas_stable(*old(self), *self);
        }
    }

    /// Makes `t` the starting triangle for the next point-location walk.
    fn set_current_triangle(&mut self, t: i32)
        requires
            old(self).arenas_ok(),
            3 <= t < old(self).nt(),
        ensures
            final(self).arenas_ok(),
            final(self).current_triangle_idx == t,
            final(self).triangles == old(self).triangles,
            final(self).vertices == old(self).vertices,
            final(self).triangles_to_check == old(self).triangles_to_check,
            final(self).current_vertex_idx == old(self).current_vertex_idx,
            final(self).n_vertices == old(self).n_vertices,
            Self::same_frame(*old(self), *final(self)),
    {
        self.current_triangle_idx = t;
        proof {
            Self::lemma_arenas_stable(*old(self), *self);
        }
    }

    /// Takes the next suspect triangle off the queue.
    fn queue_pop(&mut self) -> (r: Option<i32>)
        requires
            old(self).wf_core(),
        ensures
            final(self).wf_core(),
            (r matches Some(t) ==> {
                &&& 3 <= t < final(self).nt()
                &&& old(self).triangles_to_check@.len() > 0
                &&& t == old(self).triangles_to_check@[0]
                &&& final(self).triangles_to_check@ == old(self).triangles_to_check@.subrange(
                    1,
                    old(self).triangles_to_check@.len() as int,
                )
            }),
            r is None ==> final(self).wf() && final(self).triangles_to_check@ == old(self).triangles_to_check@,
            final(self).triangles == old(self).triangles,
            final(self).vertices == old(self).vertices,
            final(self).current_triangle_idx == old(self).current_triangle_idx,
            final(self).current_vertex_idx == old(self).current_vertex_idx,
            final(self).n_vertices == old(self).n_vertices,
            Self::same_frame(*old(self), *final(self)),
    {
        let ghost prepop = self.triangles_to_check@;
        let r = self.triangles_to_check.pop_front();
        proof {
            if r is Some {
                assert(r->0 == prepop[0]);
                assert(self.triangles_to_check@ == prepop.subrange(1, prepop.len() as int));
                assert forall|i: int|
                    0 <= i < self.triangles_to_check@.len() implies 3
                    <= #[trigger] self.triangles_to_check@[i] < self.nt() by {
                    assert(self.triangles_to_check@[i] == prepop[i + 1]);
                }
            }
            Self::lemma_arenas_stable(*old(self), *self);
        }
        r
    }

    /// Abandons all pending Delaunay checks.
    fn clear_queue(&mut self)
        requires
            old(self).wf_core(),
        ensures
            final(self).wf(),
            final(self).triangles == old(self).triangles,
            final(self).vertices == old(self).vertices,
            final(self).current_triangle_idx == old(self).current_triangle_idx,
            final(self).current_vertex_idx == old(self).current_vertex_idx,
            final(self).n_vertices == old(self).n_vertices,
            Self::same_frame(*old(self), *final(self)),
    {
        self.triangles_to_check = VecDeque::new();
        proof {
            Self::lemma_arenas_stable(*old(self), *self);
        }
    }

    /// Points the back references of the three corners of triangle `t` at
    /// their slots in `t`.
    fn set_tri_backrefs(&mut self, t: i32, v0: i32, v1: i32, v2: i32)
        requires
            old(self).arenas_ok(),
            0 <= t < old(self).nt(),
            0 <= v0 < old(self).nv(),
            0 <= v1 < old(self).nv(),
            0 <= v2 < old(self).nv(),
        ensures
            final(self).arenas_ok(),
            final(self).vertices@.len() == old(self).vertices@.len(),
            forall|i: int|
                0 <= i < final(self).nv() ==> Self::same_but_backref(
                    old(self).vertices@[i],
                    #[trigger] final(self).vertices@[i],
                ),
            Self::preserves_bookkeeping(*old(self), *final(self)),
            final(self).triangles == old(self).triangles,
            final(self).triangles_to_check == old(self).triangles_to_check,
            final(self).current_triangle_idx == old(self).current_triangle_idx,
            final(self).current_vertex_idx == old(self).current_vertex_idx,
            final(self).n_vertices == old(self).n_vertices,
            Self::same_frame(*old(self), *final(self)),
    {
        self.set_vertex_backref(v0, t, 0);
        self.set_vertex_backref(v1, t, 1);
        self.set_vertex_backref(v2, t, 2);
    }

    /// Walks the mesh from `current_triangle_idx` towards the most recently
    /// created vertex and returns the index of the triangle that strictly
    /// contains it.
    ///
    /// Ties (the query point behind two edges at once) are broken by a coin
    /// flip, which prevents cycling in near-degenerate meshes. A step onto a
    /// dummy triangle means the point lies outside the super-triangle; a walk
    /// that does not settle within `WALK_LIMIT` steps means the point sits on
    /// an edge or on a vertex of the mesh (a degenerate input).
    pub fn find_triangle_containing_current_vertex(&self) -> (r: Result<i32, DelaunayError>)
        requires
            self.wf(),
        ensures
            (r matches Ok(t) ==> 3 <= t < self.nt() && self.strictly_inside(
                t as int,
                self.vert(self.current_vertex_idx as int).x as int,
                self.vert(self.current_vertex_idx as int).y as int,
            )),
            r is Err ==> r == Err::<i32, DelaunayError>(DelaunayError::OutsideDomain) || r
                == Err::<i32, DelaunayError>(DelaunayError::Degenerate),
            // the chance-free class: a point strictly inside the starting
            // triangle is found at once, with no tie to break
            self.strictly_inside(
                self.current_triangle_idx as int,
                self.vert(self.current_vertex_idx as int).x as int,
                self.vert(self.current_vertex_idx as int).y as int,
            ) ==> r == Ok::<i32, DelaunayError>(self.current_triangle_idx),
    {
        let vertex_x = self.vertices[self.current_vertex_idx as usize].x;
        let vertex_y = self.vertices[self.current_vertex_idx as usize].y;
        let mut current_triangle_idx = self.current_triangle_idx;
        let mut steps: usize = 0;

        while steps < WALK_LIMIT
            invariant
                self.wf(),
                3 <= current_triangle_idx < self.nt(),
                vertex_x == self.vert(self.current_vertex_idx as int).x,
                vertex_y == self.vert(self.current_vertex_idx as int).y,
                self.strictly_inside(
                    self.current_triangle_idx as int,
                    vertex_x as int,
                    vertex_y as int,
                ) ==> current_triangle_idx == self.current_triangle_idx && steps == 0,
            decreases WALK_LIMIT - steps,
        {
            let current_triangle = &self.triangles[current_triangle_idx as usize];
            let vi0 = current_triangle.vertices[0];
            let vi1 = current_triangle.vertices[1];
            let vi2 = current_triangle.vertices[2];
            proof {
                let t = current_triangle_idx as int;
                assert(self.tri(t).valid(self.nv(), self.nt()));
                assert(0 <= self.tri(t).vertices[0] < self.nv());
                assert(0 <= self.tri(t).vertices[1] < self.nv());
                assert(0 <= self.tri(t).vertices[2] < self.nv());
                assert(Self::vertex_ok(self.vertices@[vi0 as int], self.nt()));
                assert(Self::vertex_ok(self.vertices@[vi1 as int], self.nt()));
                assert(Self::vertex_ok(self.vertices@[vi2 as int], self.nt()));
                assert(Self::vertex_ok(self.vertices@[self.current_vertex_idx as int], self.nt()));
            }
            let v0 = &self.vertices[vi0 as usize];
            let v1 = &self.vertices[vi1 as usize];
            let v2 = &self.vertices[vi2 as usize];

            let test2 = orient_2d(v0.x, v0.y, v1.x, v1.y, vertex_x, vertex_y);
            let test0 = orient_2d(v1.x, v1.y, v2.x, v2.y, vertex_x, vertex_y);
            let test1 = orient_2d(v2.x, v2.y, v0.x, v0.y, vertex_x, vertex_y);

            if test0 > 0 && test1 > 0 && test2 > 0 {
                return Ok(current_triangle_idx);
            } else if test0 <= 0 && test1 <= 0 {
                current_triangle_idx = random_choose(
                    current_triangle.neighbours[0],
                    current_triangle.neighbours[1],
                );
            } else if test1 <= 0 && test2 <= 0 {
                current_triangle_idx = random_choose(
                    current_triangle.neighbours[1],
                    current_triangle.neighbours[2],
                );
            } else if test0 <= 0 && test2 <= 0 {
                current_triangle_idx = random_choose(
                    current_triangle.neighbours[0],
                    current_triangle.neighbours[2],
                );
            } else if test0 <= 0 {
                current_triangle_idx = current_triangle.neighbours[0];
            } else if test1 <= 0 {
                current_triangle_idx = current_triangle.neighbours[1];
            } else {
                current_triangle_idx = current_triangle.neighbours[2];
            }

            if current_triangle_idx < 3 {
                return Err(DelaunayError::OutsideDomain);
            }
            steps = steps + 1;
        }
        Err(DelaunayError::Degenerate)
    }

    /// Appends a vertex record with no incident triangle yet and makes it
    /// the current vertex.
    fn new_vertex(&mut self, x: i64, y: i64, kind: VertexKind, dir: Direction) -> (r: i32)
        requires
            old(self).wf(),
            old(self).nv() < NV_MAX,
            -COORD_LIMIT <= x <= COORD_LIMIT,
            -COORD_LIMIT <= y <= COORD_LIMIT,
        ensures
            final(self).wf(),
            final(self).nv() == old(self).nv() + 1,
            r == old(self).nv(),
            final(self).vertices@ == old(self).vertices@.push(
                (DelaunayVertex2D {
                    x,
                    y,
                    triangle: -1i32,
                    index_in_triangle: -1i8,
                    kind,
                    direction: dir,
                    search_radius_sq: SEED_RADIUS_SQ,
                    ghosts_added: 0u16,
                }),
            ),
            final(self).triangles == old(self).triangles,
            final(self).triangles_to_check == old(self).triangles_to_check,
            final(self).current_triangle_idx == old(self).current_triangle_idx,
            final(self).current_vertex_idx == r,
            final(self).n_vertices == old(self).n_vertices,
            Self::same_frame(*old(self), *final(self)),
    {
        self.current_vertex_idx = self.vertices.len() as i32;
        self.vertices.push(
            DelaunayVertex2D {
                x,
                y,
                triangle: -1,
                index_in_triangle: -1,
                kind,
                direction: dir,
                search_radius_sq: SEED_RADIUS_SQ,
                ghosts_added: 0,
            },
        );
        proof {
            assert forall|t2: int| 3 <= t2 < self.nt() implies (#[trigger] self.tri(t2)).valid(
                self.nv(),
                self.nt(),
            ) by {
                assert(self.tri(t2) == old(self).tri(t2));
                assert(old(self).tri(t2).valid(old(self).nv(), old(self).nt()));
            }
            assert forall|t2: int| 3 <= t2 < self.nt() implies #[trigger] self.tri_orient(t2)
                > 0 by {
                assert(self.tri(t2) == old(self).tri(t2));
                assert(old(self).tri(t2).valid(old(self).nv(), old(self).nt()));
                assert(self.cx(t2, 0) == old(self).cx(t2, 0));
                assert(self.cy(t2, 0) == old(self).cy(t2, 0));
                assert(self.cx(t2, 1) == old(self).cx(t2, 1));
                assert(self.cy(t2, 1) == old(self).cy(t2, 1));
                assert(self.cx(t2, 2) == old(self).cx(t2, 2));
                assert(self.cy(t2, 2) == old(self).cy(t2, 2));
                assert(self.tri_orient(t2) == old(self).tri_orient(t2));
            }
            assert forall|t2: int| 0 <= t2 < 3 implies (#[trigger] self.tri(t2)).valid_dummy(
                self.nv(),
                self.nt(),
            ) by {
                assert(self.tri(t2) == old(self).tri(t2));
                assert(old(self).tri(t2).valid_dummy(old(self).nv(), old(self).nt()));
            }
            assert forall|i: int| 0 <= i < self.nv() implies Self::vertex_ok(
                #[trigger] self.vertices@[i],
                self.nt(),
            ) by {
                if i < old(self).nv() {
                    assert(self.vertices@[i] == old(self).vertices@[i]);
                }
            }
        }
        self.current_vertex_idx
    }

    /// Inserts a vertex of the given kind: appends it, locates the triangle
    /// that contains it, splits that triangle one-to-three, and restores the
    /// Delaunay criterion by edge flips.
    fn insert_point_impl(&mut self, x: i64, y: i64, kind: VertexKind, dir: Direction) -> (r: Result<
        (),
        DelaunayError,
    >)
        requires
            old(self).wf(),
            -COORD_LIMIT <= x <= COORD_LIMIT,
            -COORD_LIMIT <= y <= COORD_LIMIT,
        ensures
            final(self).wf(),
            Self::same_frame(*old(self), *final(self)),
            Self::preserves_points(*old(self), *final(self)),
            Self::preserves_bookkeeping(*old(self), *final(self)),
            final(self).n_vertices == old(self).n_vertices,
            r is Ok ==> {
                &&& final(self).nv() == old(self).nv() + 1
                &&& final(self).nt() == old(self).nt() + 2
                &&& final(self).vert(old(self).nv()).x == x
                &&& final(self).vert(old(self).nv()).y == y
                &&& final(self).vert(old(self).nv()).kind == kind
                &&& final(self).vert(old(self).nv()).direction == dir
            },
            r is Ok ==> final(self).consistent(),
            // the point went into a triangle it strictly fits; when that
            // triangle was fenced by dummies on all three sides, no flip can
            // fire and the one-to-three split layout survives: (b, c, p)
            // reusing the slot, (c, a, p) and (a, b, p) appended, each facing
            // the parent's outer neighbour across the new point
            r is Ok ==> exists|found2: int| {
                &&& 3 <= found2 < old(self).nt()
                &&& #[trigger] old(self).strictly_inside(found2, x as int, y as int)
                &&& (old(self).tri(found2).neighbours[0] < 3 && old(self).tri(
                    found2,
                ).neighbours[1] < 3 && old(self).tri(found2).neighbours[2] < 3) ==> ({
                    let ft = old(self).tri(found2);
                    &&& final(self).tri(found2).vertices@ == seq![
                        ft.vertices[1],
                        ft.vertices[2],
                        old(self).nv() as i32,
                    ]
                    &&& final(self).tri(old(self).nt()).vertices@ == seq![
                        ft.vertices[2],
                        ft.vertices[0],
                        old(self).nv() as i32,
                    ]
                    &&& final(self).tri(old(self).nt() + 1).vertices@ == seq![
                        ft.vertices[0],
                        ft.vertices[1],
                        old(self).nv() as i32,
                    ]
                    &&& final(self).tri(found2).neighbours[2] == ft.neighbours[0]
                    &&& final(self).tri(old(self).nt()).neighbours[2] == ft.neighbours[1]
                    &&& final(self).tri(old(self).nt() + 1).neighbours[2] == ft.neighbours[2]
                })
            },
            old(self).nv() + 1 > NV_MAX || old(self).nt() + 2 > NT_MAX ==> r == Err::<
                (),
                DelaunayError,
            >(DelaunayError::QueueOverflow) && *final(self) == *old(self),
            final(self).nv() <= old(self).nv() + 1,
    {
        if self.vertices.len() >= NV_MAX || self.triangles.len() > NT_MAX - 2 {
            return Err(DelaunayError::QueueOverflow);
        }
        // add vertex
        let vp = self.new_vertex(x, y, kind, dir);

        // Find the triangle in which (x, y) is positioned
        let found = match self.find_triangle_containing_current_vertex() {
            Result::Ok(t) => t,
            Result::Err(e) => {
                return Err(e);
            },
        };
        self.set_current_triangle(found);

        let triangle = self.triangles[found as usize];
        proof {
            assert(self.tri(found as int).valid(self.nv(), self.nt()));
        }
        let v0 = triangle.vertices[0];
        let v1 = triangle.vertices[1];
        let v2 = triangle.vertices[2];
        let n0 = triangle.neighbours[0];
        let n1 = triangle.neighbours[1];
        let n2 = triangle.neighbours[2];
        let idx_in_n0 = triangle.index_in_neighbours[0];
        let idx_in_n1 = triangle.index_in_neighbours[1];
        let idx_in_n2 = triangle.index_in_neighbours[2];

        // Create three new triangles: the first reuses the parent's slot, the
        // other two are appended (their slots are reserved with copies of the
        // parent record, then overwritten with the stitched records).
        proof {
            assert(triangle == self.tri(found as int));
            assert(self.rec_orient(triangle) == self.tri_orient(found as int));
        }
        let t1i = self.push_tri(triangle);
        proof {
            assert(self.rec_orient(triangle) > 0);
        }
        let t2i = self.push_tri(triangle);

        let t0rec = DelaunayTriangle2D {
            vertices: [v1, v2, vp],
            neighbours: [t1i, t2i, n0],
            index_in_neighbours: [1, 0, idx_in_n0],
        };
        proof {
            assert(t0rec.vertices@ =~= seq![v1, v2, vp]);
            assert(t0rec.neighbours@ =~= seq![t1i, t2i, n0]);
            assert(t0rec.index_in_neighbours@ =~= seq![1i8, 0i8, idx_in_n0]);
        }
        self.set_tri_checked(found, t0rec);
        let t1rec = DelaunayTriangle2D {
            vertices: [v2, v0, vp],
            neighbours: [t2i, found, n1],
            index_in_neighbours: [1, 0, idx_in_n1],
        };
        proof {
            assert(t1rec.vertices@ =~= seq![v2, v0, vp]);
            assert(t1rec.neighbours@ =~= seq![t2i, found, n1]);
            assert(t1rec.index_in_neighbours@ =~= seq![1i8, 0i8, idx_in_n1]);
        }
        self.set_tri_checked(t1i, t1rec);
        let t2rec = DelaunayTriangle2D {
            vertices: [v0, v1, vp],
            neighbours: [found, t1i, n2],
            index_in_neighbours: [1, 0, idx_in_n2],
        };
        proof {
            assert(t2rec.vertices@ =~= seq![v0, v1, vp]);
            assert(t2rec.neighbours@ =~= seq![found, t1i, n2]);
            assert(t2rec.index_in_neighbours@ =~= seq![1i8, 0i8, idx_in_n2]);
        }
        self.set_tri_checked(t2i, t2rec);
        let ghost post_recs = *self;

        // Stitch the parent's neighbours back at the new triangles.
        self.set_neighbour(n0, idx_in_n0, found, 2);
        self.set_neighbour(n1, idx_in_n1, t1i, 2);
        self.set_neighbour(n2, idx_in_n2, t2i, 2);
        proof {
            if n0 < 3 && n1 < 3 && n2 < 3 {
                // dummy-fenced parent: the outer stitching never touches the
                // three fresh records
                assert(self.tri(found as int) == post_recs.tri(found as int));
                assert(self.tri(t1i as int) == post_recs.tri(t1i as int));
                assert(self.tri(t2i as int) == post_recs.tri(t2i as int));
            }
        }

        self.set_tri_backrefs(found, v1, v2, vp);
        self.set_tri_backrefs(t1i, v2, v0, vp);
        self.set_tri_backrefs(t2i, v0, v1, vp);

        // Check the new triangles for delaunayness
        self.queue_push(found);
        self.queue_push(t1i);
        self.queue_push(t2i);
        let ghost post_split = *self;
        proof {
            assert(post_split.triangles_to_check@ =~= seq![found, t1i, t2i]);
            if n0 < 3 && n1 < 3 && n2 < 3 {
                assert(post_split.tri(found as int) == t0rec);
                assert(post_split.tri(t1i as int) == t1rec);
                assert(post_split.tri(t2i as int) == t2rec);
                assert forall|i: int|
                    0 <= i < post_split.triangles_to_check@.len() implies post_split.tri(
                    (#[trigger] post_split.triangles_to_check@[i]) as int,
                ).neighbours[2] < 3 by {
                    if i == 0 {
                        assert(post_split.triangles_to_check@[i] == found);
                    } else if i == 1 {
                        assert(post_split.triangles_to_check@[i] == t1i);
                    } else {
                        assert(post_split.triangles_to_check@[i] == t2i);
                    }
                }
            }
        }

        match self.fix_delaunayness() {
            Result::Ok(_) => {},
            Result::Err(e) => {
                return Err(e);
            },
        }
        // the full consistency sweep after every insertion (I1-I4)
        match self.consistency_check() {
            Result::Ok(_) => {
                proof {
                    let fi = found as int;
                    assert(old(self).tri(fi) == triangle);
                    assert(old(self).strictly_inside(fi, x as int, y as int));
                    if n0 < 3 && n1 < 3 && n2 < 3 {
                        assert(self.triangles == post_split.triangles);
                        assert(self.tri(fi).vertices@ == seq![v1, v2, vp]);
                        assert(self.tri(t1i as int).vertices@ == seq![v2, v0, vp]);
                        assert(self.tri(t2i as int).vertices@ == seq![v0, v1, vp]);
                        assert(self.tri(fi).neighbours[2] == n0);
                        assert(self.tri(t1i as int).neighbours[2] == n1);
                        assert(self.tri(t2i as int).neighbours[2] == n2);
                        assert(t1i as int == old(self).nt());
                        assert(t2i as int == old(self).nt() + 1);
                        assert(vp == old(self).nv() as i32);
                    }
                }
                Ok(())
            },
            Result::Err(e) => Err(e),
        }
    }

    /// Inserts a real generator at (x, y). The point must fall strictly
    /// inside the bounding super-triangle, and not coincide with any mesh
    /// vertex or edge, or the call fails.
    pub fn insert_point(&mut self, x: i64, y: i64) -> (r: Result<(), DelaunayError>)
        requires
            old(self).wf(),
            -COORD_LIMIT <= x <= COORD_LIMIT,
            -COORD_LIMIT <= y <= COORD_LIMIT,
        ensures
            final(self).wf(),
            Self::same_frame(*old(self), *final(self)),
            Self::preserves_points(*old(self), *final(self)),
            r is Ok ==> {
                &&& final(self).nv() == old(self).nv() + 1
                &&& final(self).nt() == old(self).nt() + 2
                &&& final(self).vert(old(self).nv()).x == x
                &&& final(self).vert(old(self).nv()).y == y
                &&& final(self).vert(old(self).nv()).kind == VertexKind::Real
                &&& final(self).n_vertices == old(self).n_vertices + 1
            },
            r is Ok ==> final(self).consistent(),
            // the point went into a strictly containing triangle; a parent
            // fenced by dummies on all sides keeps the exact one-to-three
            // split layout (see `insert_point_impl`)
            r is Ok ==> exists|found2: int| {
                &&& 3 <= found2 < old(self).nt()
                &&& #[trigger] old(self).strictly_inside(found2, x as int, y as int)
                &&& (old(self).tri(found2).neighbours[0] < 3 && old(self).tri(
                    found2,
                ).neighbours[1] < 3 && old(self).tri(found2).neighbours[2] < 3) ==> ({
                    let ft = old(self).tri(found2);
                    &&& final(self).tri(found2).vertices@ == seq![
                        ft.vertices[1],
                        ft.vertices[2],
                        old(self).nv() as i32,
                    ]
                    &&& final(self).tri(old(self).nt()).vertices@ == seq![
                        ft.vertices[2],
                        ft.vertices[0],
                        old(self).nv() as i32,
                    ]
                    &&& final(self).tri(old(self).nt() + 1).vertices@ == seq![
                        ft.vertices[0],
                        ft.vertices[1],
                        old(self).nv() as i32,
                    ]
                    &&& final(self).tri(found2).neighbours[2] == ft.neighbours[0]
                    &&& final(self).tri(old(self).nt()).neighbours[2] == ft.neighbours[1]
                    &&& final(self).tri(old(self).nt() + 1).neighbours[2] == ft.neighbours[2]
                })
            },
            r is Err ==> final(self).n_vertices == old(self).n_vertices,
            old(self).nv() + 1 > NV_MAX || old(self).nt() + 2 > NT_MAX ==> r == Err::<
                (),
                DelaunayError,
            >(DelaunayError::QueueOverflow) && *final(self) == *old(self),
            final(self).nv() <= old(self).nv() + 1,
    {
        let r = self.insert_point_impl(x, y, VertexKind::Real, Direction::Center);
        if r.is_ok() {
            let ghost pre_bump = *self;
            self.bump_real_count();
            proof {
                Self::lemma_consistent_stable(pre_bump, *self);
            }
        }
        r
    }

    /// Records that one more real generator has been inserted.
    fn bump_real_count(&mut self)
        requires
            old(self).wf(),
            old(self).n_vertices + 4 <= old(self).nv(),
        ensures
            final(self).wf(),
            final(self).n_vertices == old(self).n_vertices + 1,
            final(self).triangles == old(self).triangles,
            final(self).vertices == old(self).vertices,
            final(self).triangles_to_check == old(self).triangles_to_check,
            final(self).current_triangle_idx == old(self).current_triangle_idx,
            final(self).current_vertex_idx == old(self).current_vertex_idx,
            Self::same_frame(*old(self), *final(self)),
    {
        self.n_vertices = self.n_vertices + 1;
        proof {
            Self::lemma_arenas_stable(*old(self), *self);
        }
    }

    /// Inserts a ghost vertex: the mirror image of the real point (x, y)
    /// translated by `direction` scaled with the domain sides. The image must
    /// still fall inside the bounding super-triangle.
    pub fn insert_ghost_point(&mut self, x: i64, y: i64, direction: Direction) -> (r: Result<
        (),
        DelaunayError,
    >)
        requires
            old(self).wf(),
            -COORD_LIMIT <= x <= COORD_LIMIT,
            -COORD_LIMIT <= y <= COORD_LIMIT,
        ensures
            final(self).wf(),
            Self::same_frame(*old(self), *final(self)),
            Self::preserves_points(*old(self), *final(self)),
            Self::preserves_bookkeeping(*old(self), *final(self)),
            final(self).n_vertices == old(self).n_vertices,
            r is Ok ==> {
                &&& final(self).nv() == old(self).nv() + 1
                &&& final(self).nt() == old(self).nt() + 2
                &&& final(self).vert(old(self).nv()).x == x + direction_vector(direction).0 * old(
                    self,
                ).domain.sides[0]
                &&& final(self).vert(old(self).nv()).y == y + direction_vector(direction).1 * old(
                    self,
                ).domain.sides[1]
                &&& final(self).vert(old(self).nv()).kind == VertexKind::Mirror
                &&& final(self).vert(old(self).nv()).direction == direction
            },
            r is Ok ==> final(self).consistent(),
            ({
                let gx = x + direction_vector(direction).0 * old(self).domain.sides[0];
                let gy = y + direction_vector(direction).1 * old(self).domain.sides[1];
                gx < -COORD_LIMIT || gx > COORD_LIMIT || gy < -COORD_LIMIT || gy > COORD_LIMIT
            }) ==> r == Err::<(), DelaunayError>(DelaunayError::OutsideDomain) && *final(self)
                == *old(self),
            final(self).nv() <= old(self).nv() + 1,
    {
        let v = direction_as_vector(direction);
        let s = self.domain.sides();
        proof {
            crate::geometry::lemma_mul_abs_bound(
                v.0 as int,
                s[0] as int,
                1,
                crate::simulation_domain_2d::DOMAIN_LIMIT as int,
            );
            crate::geometry::lemma_mul_abs_bound(
                v.1 as int,
                s[1] as int,
                1,
                crate::simulation_domain_2d::DOMAIN_LIMIT as int,
            );
        }
        let gx = x + v.0 * s[0];
        let gy = y + v.1 * s[1];
        if gx < -COORD_LIMIT || gx > COORD_LIMIT || gy < -COORD_LIMIT || gy > COORD_LIMIT {
            return Err(DelaunayError::OutsideDomain);
        }
        self.insert_point_impl(gx, gy, VertexKind::Mirror, direction)
    }

    /// Marks the triangulation as periodic.
    fn mark_periodic(&mut self)
        requires
            old(self).wf(),
        ensures
            final(self).wf(),
            final(self).is_periodic,
            final(self).vertices == old(self).vertices,
            final(self).triangles == old(self).triangles,
            final(self).triangles_to_check == old(self).triangles_to_check,
            final(self).current_triangle_idx == old(self).current_triangle_idx,
            final(self).current_vertex_idx == old(self).current_vertex_idx,
            final(self).n_vertices == old(self).n_vertices,
            final(self).domain == old(self).domain,
            final(self).side == old(self).side,
            final(self).anchor == old(self).anchor,
    {
        self.is_periodic = true;
        proof {
            Self::lemma_arenas_stable(*old(self), *self);
        }
    }

    /// Records that the image of vertex `v` in one more direction now sits in
    /// the mesh.
    fn mark_ghost_added(&mut self, v: i32, bit: u16)
        requires
            old(self).wf(),
            0 <= v < old(self).nv(),
        ensures
            final(self).wf(),
            final(self).nv() == old(self).nv(),
            Self::preserves_points(*old(self), *final(self)),
            Self::same_frame(*old(self), *final(self)),
            final(self).triangles == old(self).triangles,
            final(self).triangles_to_check == old(self).triangles_to_check,
            final(self).current_triangle_idx == old(self).current_triangle_idx,
            final(self).current_vertex_idx == old(self).current_vertex_idx,
            final(self).n_vertices == old(self).n_vertices,
            final(self).vert(v as int).ghosts_added == old(self).vert(v as int).ghosts_added
                | bit,
            final(self).vert(v as int).triangle == old(self).vert(v as int).triangle,
            final(self).vert(v as int).index_in_triangle == old(self).vert(
                v as int,
            ).index_in_triangle,
            final(self).vert(v as int).search_radius_sq == old(self).vert(
                v as int,
            ).search_radius_sq,
            forall|i: int|
                0 <= i < final(self).nv() && i != v ==> #[trigger] final(self).vertices@[i] == old(
                    self,
                ).vertices@[i],
    {
        let mut rec = self.vertices[v as usize];
        rec.ghosts_added = rec.ghosts_added | bit;
        self.vertices.set(v as usize, rec);
        proof {
            Self::lemma_arenas_stable_vertex_update(*old(self), *self, v as int);
        }
    }

    /// Redirects the four outer links of a flip: the slots of the old
    /// pair's outer neighbours na, nb, nd, ne are pointed at the rewritten
    /// triangles t0 and t1, at the slots the flip convention fixes. The four
    /// (triangle, slot) pairs must be pairwise distinct and away from the
    /// pair itself, so every write survives to the end.
    #[verifier::rlimit(100)]
    fn restitch_outer_links(
        &mut self,
        na: i32, sa: i8, nb: i32, sb: i8,
        nd: i32, sd: i8, ne: i32, se: i8,
        t0: i32, t1: i32,
    )
        requires
            old(self).arenas_ok(),
            0 <= na < old(self).nt() && 0 <= sa < 3,
            0 <= nb < old(self).nt() && 0 <= sb < 3,
            0 <= nd < old(self).nt() && 0 <= sd < 3,
            0 <= ne < old(self).nt() && 0 <= se < 3,
            3 <= t0 < old(self).nt(),
            3 <= t1 < old(self).nt(),
            !(na == nb && sa == sb),
            !(na == nd && sa == sd),
            !(na == ne && sa == se),
            !(nb == nd && sb == sd),
            !(nb == ne && sb == se),
            !(nd == ne && sd == se),
            na != t0 && na != t1 && nb != t0 && nb != t1,
            nd != t0 && nd != t1 && ne != t0 && ne != t1,
        ensures
            final(self).arenas_ok(),
            final(self).nt() == old(self).nt(),
            final(self).vertices == old(self).vertices,
            final(self).triangles_to_check == old(self).triangles_to_check,
            final(self).current_triangle_idx == old(self).current_triangle_idx,
            final(self).current_vertex_idx == old(self).current_vertex_idx,
            final(self).n_vertices == old(self).n_vertices,
            Self::same_frame(*old(self), *final(self)),
            final(self).tri(na as int).neighbours[sa as int] == t1,
            final(self).tri(na as int).index_in_neighbours[sa as int] == 0,
            final(self).tri(nd as int).neighbours[sd as int] == t0,
            final(self).tri(nd as int).index_in_neighbours[sd as int] == 2,
            final(self).tri(nb as int).neighbours[sb as int] == t0,
            final(self).tri(nb as int).index_in_neighbours[sb as int] == 1,
            final(self).tri(ne as int).neighbours[se as int] == t1,
            final(self).tri(ne as int).index_in_neighbours[se as int] == 2,
            forall|j: int|
                0 <= j < final(self).nt() && j != na && j != nb && j != nd && j != ne
                    ==> #[trigger] final(self).tri(j) == old(self).tri(j),
            forall|j: int|
                0 <= j < final(self).nt() ==> (#[trigger] final(self).tri(j)).vertices == old(
                    self,
                ).tri(j).vertices,
    {
        self.set_neighbour(na, sa, t1, 0);
        let ghost g1 = *self;
        self.set_neighbour(nd, sd, t0, 2);
        let ghost g2 = *self;
        // These two keep their neighbour but its slot may have changed.
        self.set_neighbour(nb, sb, t0, 1);
        let ghost g3 = *self;
        self.set_neighbour(ne, se, t1, 2);
        proof {
            // the (na, sa) link survives the three later writes
            assert(g2.tri(na as int).neighbours[sa as int] == t1 && g2.tri(
                na as int,
            ).index_in_neighbours[sa as int] == 0) by {
                if nd != na {
                    assert(g2.tri(na as int) == g1.tri(na as int));
                }
            }
            assert(g3.tri(na as int).neighbours[sa as int] == t1 && g3.tri(
                na as int,
            ).index_in_neighbours[sa as int] == 0) by {
                if nb != na {
                    assert(g3.tri(na as int) == g2.tri(na as int));
                }
            }
            assert(self.tri(na as int).neighbours[sa as int] == t1 && self.tri(
                na as int,
            ).index_in_neighbours[sa as int] == 0) by {
                if ne != na {
                    assert(self.tri(na as int) == g3.tri(na as int));
                }
            }
            // the (nd, sd) link survives the two later writes
            assert(g3.tri(nd as int).neighbours[sd as int] == t0 && g3.tri(
                nd as int,
            ).index_in_neighbours[sd as int] == 2) by {
                if nb != nd {
                    assert(g3.tri(nd as int) == g2.tri(nd as int));
                }
            }
            assert(self.tri(nd as int).neighbours[sd as int] == t0 && self.tri(
                nd as int,
            ).index_in_neighbours[sd as int] == 2) by {
                if ne != nd {
                    assert(self.tri(nd as int) == g3.tri(nd as int));
                }
            }
            // the (nb, sb) link survives the last write
            assert(self.tri(nb as int).neighbours[sb as int] == t0 && self.tri(
                nb as int,
            ).index_in_neighbours[sb as int] == 1) by {
                if ne != nb {
                    assert(self.tri(nb as int) == g3.tri(nb as int));
                }
            }
            // untouched records
            assert forall|j: int|
                0 <= j < self.nt() && j != na && j != nb && j != nd && j != ne implies
                #[trigger] self.tri(j) == old(self).tri(j) by {
                assert(g1.tri(j) == old(self).tri(j));
                assert(g2.tri(j) == g1.tri(j));
                assert(g3.tri(j) == g2.tri(j));
            }
            // no write moves a corner
            assert forall|j: int|
                0 <= j < self.nt() implies (#[trigger] self.tri(j)).vertices == old(self).tri(
                j,
            ).vertices by {
                assert(g1.tri(j).vertices == old(self).tri(j).vertices) by {
                    if j != na {
                        assert(g1.tri(j) == old(self).tri(j));
                    }
                }
                assert(g2.tri(j).vertices == g1.tri(j).vertices) by {
                    if j != nd {
                        assert(g2.tri(j) == g1.tri(j));
                    }
                }
                assert(g3.tri(j).vertices == g2.tri(j).vertices) by {
                    if j != nb {
                        assert(g3.tri(j) == g2.tri(j));
                    }
                }
                assert(self.tri(j).vertices == g3.tri(j).vertices) by {
                    if j != ne {
                        assert(self.tri(j) == g3.tri(j));
                    }
                }
            }
        }
    }

    /// Replaces the adjacent pair (t, n), whose shared edge fails the
    /// in-circle test, by the two triangles on the other diagonal of their
    /// quadrilateral, restitches all neighbour links, and queues both
    /// results for further checks.
    ///
    /// The two candidate triangles are checked for positive orientation
    /// before anything is written; a failure reports `Invariant` and leaves
    /// the mesh untouched.
    #[verifier::rlimit(100)]
    fn flip_triangles(&mut self, triangle_idx: i32, neighbour_idx: i32) -> (r: Result<
        (),
        DelaunayError,
    >)
        requires
            old(self).wf_core(),
            3 <= triangle_idx < old(self).nt(),
            3 <= neighbour_idx < old(self).nt(),
            triangle_idx != neighbour_idx,
        ensures
            final(self).wf_core(),
            final(self).nt() == old(self).nt(),
            final(self).nv() == old(self).nv(),
            Self::preserves_points(*old(self), *final(self)),
            Self::preserves_bookkeeping(*old(self), *final(self)),
            Self::same_frame(*old(self), *final(self)),
            final(self).n_vertices == old(self).n_vertices,
            final(self).triangles_to_check@.len() <= old(self).triangles_to_check@.len() + 2,
            r is Err ==> *final(self) == *old(self),
            // the flip goes through exactly when the two candidate triangles
            // are positively oriented and neither half is doubly adjacent to
            // the pair
            r is Ok <==> ({
                let told = old(self).tri(triangle_idx as int);
                let nold = old(self).tri(neighbour_idx as int);
                let ix = told.index_in_neighbours[2] as int;
                let fv = nold.vertices[ix] as int;
                let av = told.vertices[0] as int;
                let bv = told.vertices[1] as int;
                let cv = told.vertices[2] as int;
                &&& told.neighbours[0] != triangle_idx && told.neighbours[0] != neighbour_idx
                &&& told.neighbours[1] != triangle_idx && told.neighbours[1] != neighbour_idx
                &&& nold.neighbours[(ix + 1) % 3] != triangle_idx && nold.neighbours[(ix + 1)
                    % 3] != neighbour_idx
                &&& nold.neighbours[(ix + 2) % 3] != triangle_idx && nold.neighbours[(ix + 2)
                    % 3] != neighbour_idx
                &&& !(told.neighbours[0] == told.neighbours[1]
                    && told.index_in_neighbours[0] == told.index_in_neighbours[1])
                &&& !(told.neighbours[0] == nold.neighbours[(ix + 1) % 3]
                    && told.index_in_neighbours[0] == nold.index_in_neighbours[(ix + 1) % 3])
                &&& !(told.neighbours[0] == nold.neighbours[(ix + 2) % 3]
                    && told.index_in_neighbours[0] == nold.index_in_neighbours[(ix + 2) % 3])
                &&& !(told.neighbours[1] == nold.neighbours[(ix + 1) % 3]
                    && told.index_in_neighbours[1] == nold.index_in_neighbours[(ix + 1) % 3])
                &&& !(told.neighbours[1] == nold.neighbours[(ix + 2) % 3]
                    && told.index_in_neighbours[1] == nold.index_in_neighbours[(ix + 2) % 3])
                &&& !(nold.neighbours[(ix + 1) % 3] == nold.neighbours[(ix + 2) % 3]
                    && nold.index_in_neighbours[(ix + 1) % 3] == nold.index_in_neighbours[(ix + 2)
                    % 3])
                &&& orient2d(
                    old(self).vert(av).x as int, old(self).vert(av).y as int,
                    old(self).vert(fv).x as int, old(self).vert(fv).y as int,
                    old(self).vert(cv).x as int, old(self).vert(cv).y as int,
                ) > 0
                &&& orient2d(
                    old(self).vert(fv).x as int, old(self).vert(fv).y as int,
                    old(self).vert(bv).x as int, old(self).vert(bv).y as int,
                    old(self).vert(cv).x as int, old(self).vert(cv).y as int,
                ) > 0
            }),
            // the flip's exact effect: with t = (a, b, c) and f the
            // neighbour's vertex opposite the shared edge (a, b), the two
            // slots are rewritten to (a, f, c) and (f, b, c), keeping the
            // apex c at slot 2; both are queued for re-examination and the
            // neighbour becomes the walk's starting triangle
            r is Ok ==> ({
                let told = old(self).tri(triangle_idx as int);
                let nold = old(self).tri(neighbour_idx as int);
                let ix = told.index_in_neighbours[2] as int;
                let f = nold.vertices[ix];
                &&& final(self).tri(triangle_idx as int).vertices@ == seq![
                    told.vertices[0],
                    f,
                    told.vertices[2],
                ]
                &&& final(self).tri(neighbour_idx as int).vertices@ == seq![
                    f,
                    told.vertices[1],
                    told.vertices[2],
                ]
                &&& final(self).tri(triangle_idx as int).neighbours@ == seq![
                    neighbour_idx,
                    told.neighbours[1],
                    nold.neighbours[(ix + 1) % 3],
                ]
                &&& final(self).tri(neighbour_idx as int).neighbours@ == seq![
                    told.neighbours[0],
                    triangle_idx,
                    nold.neighbours[(ix + 2) % 3],
                ]
                &&& final(self).tri(triangle_idx as int).index_in_neighbours@ == seq![
                    1i8,
                    told.index_in_neighbours[1],
                    nold.index_in_neighbours[(ix + 1) % 3],
                ]
                &&& final(self).tri(neighbour_idx as int).index_in_neighbours@ == seq![
                    told.index_in_neighbours[0],
                    0i8,
                    nold.index_in_neighbours[(ix + 2) % 3],
                ]
                &&& final(self).triangles_to_check@ == old(self).triangles_to_check@.push(
                    triangle_idx,
                ).push(neighbour_idx)
                &&& final(self).current_triangle_idx == neighbour_idx
                &&& final(self).tri(told.neighbours[0] as int).neighbours[told.index_in_neighbours[0] as int]
                    == neighbour_idx
                &&& final(self).tri(told.neighbours[0] as int).index_in_neighbours[told.index_in_neighbours[0] as int]
                    == 0
                &&& final(self).tri(told.neighbours[1] as int).neighbours[told.index_in_neighbours[1] as int]
                    == triangle_idx
                &&& final(self).tri(told.neighbours[1] as int).index_in_neighbours[told.index_in_neighbours[1] as int]
                    == 1
                &&& final(self).tri(nold.neighbours[(ix + 1) % 3] as int).neighbours[nold.index_in_neighbours[(ix
                    + 1) % 3] as int] == triangle_idx
                &&& final(self).tri(nold.neighbours[(ix + 1) % 3] as int).index_in_neighbours[nold.index_in_neighbours[(ix
                    + 1) % 3] as int] == 2
                &&& final(self).tri(nold.neighbours[(ix + 2) % 3] as int).neighbours[nold.index_in_neighbours[(ix
                    + 2) % 3] as int] == neighbour_idx
                &&& final(self).tri(nold.neighbours[(ix + 2) % 3] as int).index_in_neighbours[nold.index_in_neighbours[(ix
                    + 2) % 3] as int] == 2
                &&& forall|j: int|
                    0 <= j < final(self).nt() && j != triangle_idx && j != neighbour_idx && j
                        != told.neighbours[0] && j != told.neighbours[1] && j != nold.neighbours[(
                    ix + 1) % 3] && j != nold.neighbours[(ix + 2) % 3]
                        ==> #[trigger] final(self).tri(j) == old(self).tri(j)
            }),
    {
        let triangle = self.triangles[triangle_idx as usize];
        let neighbour = self.triangles[neighbour_idx as usize];
        proof {
            assert(self.tri(triangle_idx as int).valid(self.nv(), self.nt()));
            assert(self.tri(neighbour_idx as int).valid(self.nv(), self.nt()));
        }

        let ai = triangle.vertices[0];
        let bi = triangle.vertices[1];
        let ci = triangle.vertices[2];
        let na = triangle.neighbours[0];
        let nb = triangle.neighbours[1];
        let idx_in_na = triangle.index_in_neighbours[0];
        let idx_in_nb = triangle.index_in_neighbours[1];

        let idx_in_neighbour = triangle.index_in_neighbours[2] as usize;
        let fi = neighbour.vertices[idx_in_neighbour];
        let nd = neighbour.neighbours[(idx_in_neighbour + 1) % 3];
        let ne = neighbour.neighbours[(idx_in_neighbour + 2) % 3];
        let idx_in_nd = neighbour.index_in_neighbours[(idx_in_neighbour + 1) % 3];
        let idx_in_ne = neighbour.index_in_neighbours[(idx_in_neighbour + 2) % 3];

        let va = self.vertices[ai as usize];
        let vb = self.vertices[bi as usize];
        let vc = self.vertices[ci as usize];
        let vf = self.vertices[fi as usize];

        // A triangle doubly adjacent to its partner, or two outer links
        // landing on the same slot of the same triangle, is a broken mesh:
        // no flip can restitch it.
        if na == triangle_idx || na == neighbour_idx || nb == triangle_idx || nb == neighbour_idx
            || nd == triangle_idx || nd == neighbour_idx || ne == triangle_idx
            || ne == neighbour_idx {
            return Err(DelaunayError::Invariant);
        }
        if (na == nb && idx_in_na == idx_in_nb) || (na == nd && idx_in_na == idx_in_nd) || (na
            == ne && idx_in_na == idx_in_ne) || (nb == nd && idx_in_nb == idx_in_nd) || (nb == ne
            && idx_in_nb == idx_in_ne) || (nd == ne && idx_in_nd == idx_in_ne) {
            return Err(DelaunayError::Invariant);
        }

        // The two candidate triangles must be positively oriented, or the
        // flip would corrupt the mesh.
        let o0 = orient_2d(va.x, va.y, vf.x, vf.y, vc.x, vc.y);
        let o1 = orient_2d(vf.x, vf.y, vb.x, vb.y, vc.x, vc.y);
        if o0 <= 0 || o1 <= 0 {
            return Err(DelaunayError::Invariant);
        }

        // Redirect the four outer links first; the guards above make these
        // slots pairwise disjoint and away from the two records rewritten
        // below.
        self.restitch_outer_links(
            na,
            idx_in_na,
            nb,
            idx_in_nb,
            nd,
            idx_in_nd,
            ne,
            idx_in_ne,
            triangle_idx,
            neighbour_idx,
        );
        let ghost post_links = *self;

        let t0rec = DelaunayTriangle2D {
            vertices: [ai, fi, ci],
            neighbours: [neighbour_idx, nb, nd],
            index_in_neighbours: [1, idx_in_nb, idx_in_nd],
        };
        proof {
            assert(t0rec.vertices@ =~= seq![ai, fi, ci]);
            assert(t0rec.neighbours@ =~= seq![neighbour_idx, nb, nd]);
            assert(t0rec.index_in_neighbours@ =~= seq![1i8, idx_in_nb, idx_in_nd]);
            assert(self.rec_orient(t0rec) == o0);
        }
        self.set_tri_checked(triangle_idx, t0rec);
        let t1rec = DelaunayTriangle2D {
            vertices: [fi, bi, ci],
            neighbours: [na, triangle_idx, ne],
            index_in_neighbours: [idx_in_na, 0, idx_in_ne],
        };
        proof {
            assert(t1rec.vertices@ =~= seq![fi, bi, ci]);
            assert(t1rec.neighbours@ =~= seq![na, triangle_idx, ne]);
            assert(t1rec.index_in_neighbours@ =~= seq![idx_in_na, 0i8, idx_in_ne]);
            assert(self.rec_orient(t1rec) == o1);
        }
        self.set_tri_checked(neighbour_idx, t1rec);

        self.queue_push(triangle_idx);
        self.queue_push(neighbour_idx);
        self.set_current_triangle(neighbour_idx);

        self.set_tri_backrefs(triangle_idx, ai, fi, ci);
        self.set_tri_backrefs(neighbour_idx, fi, bi, ci);

        proof {
            let q0 = old(self).triangles_to_check@;
            assert(self.triangles_to_check@ == q0.push(triangle_idx).push(neighbour_idx));
            assert forall|i: int|
                0 <= i < self.triangles_to_check@.len() implies 3
                <= #[trigger] self.triangles_to_check@[i] < self.nt() by {
                if i < q0.len() {
                    assert(self.triangles_to_check@[i] == q0[i]);
                }
            }
            // the two rewritten records survive the restitching untouched
            assert(self.tri(triangle_idx as int) == t0rec);
            assert(self.tri(neighbour_idx as int) == t1rec);
            // the four outer links and every other record survive the two
            // record rewrites
            assert forall|j: int|
                0 <= j < self.nt() && j != triangle_idx && j != neighbour_idx implies
                #[trigger] self.tri(j) == post_links.tri(j) by {}
            assert(self.tri(na as int) == post_links.tri(na as int));
            assert(self.tri(nb as int) == post_links.tri(nb as int));
            assert(self.tri(nd as int) == post_links.tri(nd as int));
            assert(self.tri(ne as int) == post_links.tri(ne as int));
            assert forall|j: int|
                0 <= j < self.nt() && j != triangle_idx && j != neighbour_idx && j != na && j != nb
                    && j != nd && j != ne implies #[trigger] self.tri(j) == old(self).tri(j) by {
                assert(self.tri(j) == post_links.tri(j));
                assert(post_links.tri(j) == old(self).tri(j));
            }
        }
        Ok(())
    }

    /// Examines the slot-2 neighbour of the queued triangle and flips the
    /// shared edge when the opposite vertex falls strictly inside the
    /// triangle's circumcircle: the mesh changes exactly when the slot-2
    /// in-circle test fails.
    fn fix_triangle(&mut self, triangle_idx: i32) -> (r: Result<(), DelaunayError>)
        requires
            old(self).wf_core(),
            3 <= triangle_idx < old(self).nt(),
        ensures
            final(self).wf_core(),
            final(self).nt() == old(self).nt(),
            final(self).nv() == old(self).nv(),
            Self::preserves_points(*old(self), *final(self)),
            Self::preserves_bookkeeping(*old(self), *final(self)),
            Self::same_frame(*old(self), *final(self)),
            final(self).n_vertices == old(self).n_vertices,
            final(self).triangles_to_check@.len() <= old(self).triangles_to_check@.len() + 2,
            // a dummy across the suspect edge: nothing to do
            old(self).tri(triangle_idx as int).neighbours[2] < 3 ==> r is Ok && *final(self)
                == *old(self),
            // the edge already satisfies the criterion: nothing to do
            old(self).tri(triangle_idx as int).neighbours[2] >= 3 && old(self).delaunay_at(
                triangle_idx as int,
                2,
            ) ==> r is Ok && *final(self) == *old(self),
            // the edge fails the criterion and the flip goes through: both
            // halves are queued and the partner becomes the walk's start
            (old(self).tri(triangle_idx as int).neighbours[2] >= 3 && !old(self).delaunay_at(
                triangle_idx as int,
                2,
            ) && r is Ok) ==> {
                &&& final(self).triangles_to_check@ == old(self).triangles_to_check@.push(
                    triangle_idx,
                ).push(old(self).tri(triangle_idx as int).neighbours[2])
                &&& final(self).current_triangle_idx == old(self).tri(
                    triangle_idx as int,
                ).neighbours[2]
            },
    {
        let triangle = self.triangles[triangle_idx as usize];
        proof {
            assert(self.tri(triangle_idx as int).valid(self.nv(), self.nt()));
        }
        let neighbour_idx = triangle.neighbours[2];
        if neighbour_idx < 3 {
            return Ok(());
        }

        let neighbour = self.triangles[neighbour_idx as usize];
        proof {
            assert(self.tri(neighbour_idx as int).valid(self.nv(), self.nt()));
        }
        let a = self.vertices[triangle.vertices[0] as usize];
        let b = self.vertices[triangle.vertices[1] as usize];
        let c = self.vertices[triangle.vertices[2] as usize];
        let d = self.vertices[neighbour.vertices[triangle.index_in_neighbours[2] as usize] as usize];

        let test = in_circle_2d(a.x, a.y, b.x, b.y, c.x, c.y, d.x, d.y);
        proof {
            let ti = triangle_idx as int;
            assert(a.x == self.cx(ti, 0) && a.y == self.cy(ti, 0));
            assert(b.x == self.cx(ti, 1) && b.y == self.cy(ti, 1));
            assert(c.x == self.cx(ti, 2) && c.y == self.cy(ti, 2));
            let di = self.tri(neighbour_idx as int).vertices[self.tri(
                ti,
            ).index_in_neighbours[2] as int] as int;
            assert(d.x == self.vert(di).x && d.y == self.vert(di).y);
            assert(test >= 0 ==> self.delaunay_at(ti, 2));
            assert(test < 0 ==> !self.delaunay_at(ti, 2));
        }

        if test < 0 {
            if neighbour_idx == triangle_idx {
                return Err(DelaunayError::Invariant);
            }
            self.flip_triangles(triangle_idx, neighbour_idx)
        } else {
            Ok(())
        }
    }

    /// Drains the flip queue, restoring the Delaunay criterion around every
    /// suspect edge. Reports `QueueOverflow` when the sweep does not settle
    /// within `FLIP_LIMIT` steps.
    fn fix_delaunayness(&mut self) -> (r: Result<(), DelaunayError>)
        requires
            old(self).wf_core(),
        ensures
            final(self).wf(),
            final(self).nt() == old(self).nt(),
            final(self).nv() == old(self).nv(),
            Self::preserves_points(*old(self), *final(self)),
            Self::preserves_bookkeeping(*old(self), *final(self)),
            Self::same_frame(*old(self), *final(self)),
            final(self).n_vertices == old(self).n_vertices,
            // a queue of dummy-fenced suspects drains without any flip
            ({
                &&& old(self).triangles_to_check@.len() < FLIP_LIMIT
                &&& forall|i: int|
                    0 <= i < old(self).triangles_to_check@.len() ==> old(self).tri(
                        (#[trigger] old(self).triangles_to_check@[i]) as int,
                    ).neighbours[2] < 3
            }) ==> r is Ok && final(self).triangles == old(self).triangles && final(self).vertices
                == old(self).vertices && final(self).current_triangle_idx == old(
                self,
            ).current_triangle_idx,
    {
        let mut fuel: usize = FLIP_LIMIT;
        #[verifier::loop_isolation(false)]
        while fuel > 0
            invariant
                self.wf_core(),
                self.nt() == old(self).nt(),
                self.nv() == old(self).nv(),
                Self::preserves_points(*old(self), *self),
                Self::preserves_bookkeeping(*old(self), *self),
                Self::same_frame(*old(self), *self),
                self.n_vertices == old(self).n_vertices,
                ({
                    &&& old(self).triangles_to_check@.len() < FLIP_LIMIT
                    &&& forall|i: int|
                        0 <= i < old(self).triangles_to_check@.len() ==> old(self).tri(
                            (#[trigger] old(self).triangles_to_check@[i]) as int,
                        ).neighbours[2] < 3
                }) ==> {
                    &&& self.triangles == old(self).triangles
                    &&& self.vertices == old(self).vertices
                    &&& self.current_triangle_idx == old(self).current_triangle_idx
                    &&& self.triangles_to_check@.len() < fuel
                    &&& forall|i: int|
                        0 <= i < self.triangles_to_check@.len() ==> old(self).tri(
                            (#[trigger] self.triangles_to_check@[i]) as int,
                        ).neighbours[2] < 3
                },
            decreases fuel,
        {
            let next = self.queue_pop();
            match next {
                Option::None => {
                    return Ok(());
                },
                Option::Some(triangle_to_fix_idx) => {
                    let res = self.fix_triangle(triangle_to_fix_idx);
                    match res {
                        Result::Ok(_) => {},
                        Result::Err(e) => {
                            self.clear_queue();
                            return Err(e);
                        },
                    }
                },
            }
            fuel = fuel - 1;
        }
        self.clear_queue();
        Err(DelaunayError::QueueOverflow)
    }

    /// Creates the triangulation over a domain: three bounding corners, one
    /// super-triangle large enough that any periodic ghost image of a point
    /// of the domain still falls strictly inside it, and three dummies
    /// fencing its hull.
    pub fn new(domain: SimulationDomain2D, vertex_size: usize, triangle_size: usize) -> (r:
        DelaunayTriangulation2D)
        requires
            domain.wf(),
        ensures
            r.wf(),
            r.nv() == 3,
            r.nt() == 4,
            r.n_vertices == 0,
            r.domain == domain,
            !r.is_periodic,
            r.side == 6 * (if domain.sides[0] > domain.sides[1] {
                domain.sides[0]
            } else {
                domain.sides[1]
            }),
            r.anchor[0] == domain.anchor[0] - domain.sides[0],
            r.anchor[1] == domain.anchor[1] - domain.sides[1],
            forall|i: int| 0 <= i < 3 ==> (#[trigger] r.vertices@[i]).kind == VertexKind::BoundingCorner,
            // the initial layout: the three corners of the right-isoceles
            // super-triangle, the one real triangle over them, the dummy
            // fencing, and the walk's starting triangle
            r.vert(0).x == r.anchor[0] && r.vert(0).y == r.anchor[1],
            r.vert(1).x == r.anchor[0] + r.side && r.vert(1).y == r.anchor[1],
            r.vert(2).x == r.anchor[0] && r.vert(2).y == r.anchor[1] + r.side,
            forall|s: int| 0 <= s < 3 ==> #[trigger] r.tri(3).vertices[s] == s,
            forall|s: int| 0 <= s < 3 ==> #[trigger] r.tri(3).neighbours[s] == s,
            forall|s: int| 0 <= s < 3 ==> #[trigger] r.tri(3).index_in_neighbours[s] == s,
            forall|d: int| 0 <= d < 3 ==> #[trigger] r.tri(d).neighbours[d] == 3,
            r.current_triangle_idx == 3,
            r.consistent(),
    {
        let a = domain.anchor();
        let s = domain.sides();
        // Six times the longest side, anchored one side below the domain:
        // large enough that every periodic ghost image of a domain point
        // falls inside. On the integer grid a point can land exactly on a
        // mesh edge (a generator on the domain boundary has a periodic image
        // exactly on a leg); such an insertion is rejected as `Degenerate`.
        let side: i64 = 6 * (if s[0] > s[1] {
            s[0]
        } else {
            s[1]
        });
        let anchor: [i64; 2] = [a[0] - s[0], a[1] - s[1]];

        let mut vertices: Vec<DelaunayVertex2D> = Vec::with_capacity(vertex_size);
        let mut triangles: Vec<DelaunayTriangle2D> = Vec::with_capacity(triangle_size);

        // The three corners of the super-triangle, each pointing back at the
        // one real triangle (index 3).
        vertices.push(
            DelaunayVertex2D {
                x: anchor[0],
                y: anchor[1],
                triangle: 3,
                index_in_triangle: 0,
                kind: VertexKind::BoundingCorner,
                direction: Direction::Center,
                search_radius_sq: 0,
                ghosts_added: 0,
            },
        );
        vertices.push(
            DelaunayVertex2D {
                x: anchor[0] + side,
                y: anchor[1],
                triangle: 3,
                index_in_triangle: 1,
                kind: VertexKind::BoundingCorner,
                direction: Direction::Center,
                search_radius_sq: 0,
                ghosts_added: 0,
            },
        );
        vertices.push(
            DelaunayVertex2D {
                x: anchor[0],
                y: anchor[1] + side,
                triangle: 3,
                index_in_triangle: 2,
                kind: VertexKind::BoundingCorner,
                direction: Direction::Center,
                search_radius_sq: 0,
                ghosts_added: 0,
            },
        );

        // Dummies fence the three hull edges of the super-triangle; slot k of
        // dummy k refers back to the real triangle.
        triangles.push(
            DelaunayTriangle2D {
                vertices: [1, 2, -1],
                neighbours: [3, -1, -1],
                index_in_neighbours: [0, -1, -1],
            },
        );
        triangles.push(
            DelaunayTriangle2D {
                vertices: [2, 0, -1],
                neighbours: [-1, 3, -1],
                index_in_neighbours: [-1, 1, -1],
            },
        );
        triangles.push(
            DelaunayTriangle2D {
                vertices: [0, 1, -1],
                neighbours: [-1, -1, 3],
                index_in_neighbours: [-1, -1, 2],
            },
        );
        triangles.push(
            DelaunayTriangle2D {
                vertices: [0, 1, 2],
                neighbours: [0, 1, 2],
                index_in_neighbours: [0, 1, 2],
            },
        );

        let r = DelaunayTriangulation2D {
            vertices,
            triangles,
            anchor,
            side,
            domain,
            is_periodic: false,
            n_vertices: 0,
            current_triangle_idx: 3,
            current_vertex_idx: 0,
            triangles_to_check: VecDeque::new(),
        };
        proof {
            assert(r.tri_orient(3) == side * side) by (nonlinear_arith)
                requires
                    r.tri_orient(3) == orient2d(
                        anchor[0] as int, anchor[1] as int,
                        anchor[0] as int + side as int, anchor[1] as int,
                        anchor[0] as int, anchor[1] as int + side as int,
                    ),
                    side > 0,
            ;
            assert(side * side > 0) by (nonlinear_arith)
                requires
                    side > 0,
            ;
            // the concrete views of the four records and three vertices
            assert(r.tri(0).vertices@ =~= seq![1i32, 2i32, -1i32]);
            assert(r.tri(0).neighbours@ =~= seq![3i32, -1i32, -1i32]);
            assert(r.tri(0).index_in_neighbours@ =~= seq![0i8, -1i8, -1i8]);
            assert(r.tri(1).vertices@ =~= seq![2i32, 0i32, -1i32]);
            assert(r.tri(1).neighbours@ =~= seq![-1i32, 3i32, -1i32]);
            assert(r.tri(1).index_in_neighbours@ =~= seq![-1i8, 1i8, -1i8]);
            assert(r.tri(2).vertices@ =~= seq![0i32, 1i32, -1i32]);
            assert(r.tri(2).neighbours@ =~= seq![-1i32, -1i32, 3i32]);
            assert(r.tri(2).index_in_neighbours@ =~= seq![-1i8, -1i8, 2i8]);
            assert(r.tri(3).vertices@ =~= seq![0i32, 1i32, 2i32]);
            assert(r.tri(3).neighbours@ =~= seq![0i32, 1i32, 2i32]);
            assert(r.tri(3).index_in_neighbours@ =~= seq![0i8, 1i8, 2i8]);
            // the fresh mesh passes the full consistency sweep
            assert forall|t: int, s: int|
                3 <= t < r.nt() && 0 <= s < 3 implies #[trigger] r.neighbour_symmetric_at(
                t,
                s,
            ) by {
                assert(t == 3);
                assert(r.tri(3).neighbours[s] == s);
                assert(r.tri(3).index_in_neighbours[s] == s);
            }
            assert forall|t: int, s: int|
                3 <= t < r.nt() && 0 <= s < 3 implies #[trigger] r.shares_two_at(t, s) by {
                assert(t == 3);
            }
            assert forall|t: int, s: int|
                3 <= t < r.nt() && 0 <= s < 3 implies #[trigger] r.delaunay_at(t, s) by {
                assert(t == 3);
                assert(r.tri(3).neighbours[s] == s && s < 3);
            }
            assert forall|v: int| 0 <= v < r.nv() implies #[trigger] r.backref_ok_at(v) by {
                assert(r.vert(v).triangle == 3);
                assert(r.vert(v).index_in_triangle == v);
                assert(r.tri(3).vertices[v] == v);
            }
        }
        r
    }

    /// The ghost policy test of the periodic boundary: the image of the
    /// generator at (x, y) in direction `dir` is required when the generator
    /// lies within its search radius of the domain edge (or corner) that the
    /// direction wraps around.
    pub open spec fn ghost_needed(
        x: int, y: int, r_sq: int, dir: Direction, domain: SimulationDomain2D,
    ) -> bool {
        let dx = direction_vector(dir).0;
        let dy = direction_vector(dir).1;
        let ex = if dx == 1 {
            x - domain.anchor[0]
        } else if dx == -1 {
            domain.anchor[0] + domain.sides[0] - x
        } else {
            0
        };
        let ey = if dy == 1 {
            y - domain.anchor[1]
        } else if dy == -1 {
            domain.anchor[1] + domain.sides[1] - y
        } else {
            0
        };
        &&& dir != Direction::Center
        &&& (crate::geometry::VOR_SCALE * crate::geometry::VOR_SCALE) * (ex * ex + ey * ey)
            <= r_sq
    }

    /// Decides the ghost policy test at run time.
    fn check_ghost_needed(&self, x: i64, y: i64, r_sq: i64, dir: Direction) -> (r: bool)
        requires
            self.domain.wf(),
            -COORD_LIMIT <= x <= COORD_LIMIT,
            -COORD_LIMIT <= y <= COORD_LIMIT,
        ensures
            r == Self::ghost_needed(x as int, y as int, r_sq as int, dir, self.domain),
    {
        let v = direction_as_vector(dir);
        let a = self.domain.anchor();
        let s = self.domain.sides();
        let ex: i64 = if v.0 == 1 {
            x - a[0]
        } else if v.0 == -1 {
            a[0] + s[0] - x
        } else {
            0
        };
        let ey: i64 = if v.1 == 1 {
            y - a[1]
        } else if v.1 == -1 {
            a[1] + s[1] - y
        } else {
            0
        };
        proof {
            let b: int = 2097152;
            crate::geometry::lemma_mul_abs_bound(ex as int, ex as int, b, b);
            crate::geometry::lemma_mul_abs_bound(ey as int, ey as int, b, b);
        }
        let e2: i128 = (ex as i128) * (ex as i128) + (ey as i128) * (ey as i128);
        let scale2: i128 = 1048576;
        proof {
            assert((crate::geometry::VOR_SCALE as int) * (crate::geometry::VOR_SCALE as int)
                == 1048576) by (nonlinear_arith)
                requires
                    crate::geometry::VOR_SCALE == 1024,
            ;
            crate::geometry::lemma_mul_abs_bound(
                scale2 as int,
                e2 as int,
                0x100000,
                0x80000000000,
            );
        }
        let need = scale2 * e2 <= r_sq as i128;
        let is_center = match dir {
            Direction::Center => true,
            _ => false,
        };
        !is_center && need
    }

    /// The direction of the k-th of the eight periodic images.
    pub open spec fn ghost_direction_of(k: int) -> Direction {
        if k == 0 {
            Direction::RightDown
        } else if k == 1 {
            Direction::Right
        } else if k == 2 {
            Direction::RightUp
        } else if k == 3 {
            Direction::Up
        } else if k == 4 {
            Direction::Down
        } else if k == 5 {
            Direction::LeftDown
        } else if k == 6 {
            Direction::Left
        } else {
            Direction::LeftUp
        }
    }

    fn ghost_direction(k: usize) -> (r: Direction)
        requires
            k < 8,
        ensures
            r == Self::ghost_direction_of(k as int),
            r != Direction::Center,
    {
        match k {
            0 => Direction::RightDown,
            1 => Direction::Right,
            2 => Direction::RightUp,
            3 => Direction::Up,
            4 => Direction::Down,
            5 => Direction::LeftDown,
            6 => Direction::Left,
            _ => Direction::LeftUp,
        }
    }

    /// Direction number `k` of vertex `j` has been dealt with: if the vertex
    /// is a real generator whose image the policy demands there, the
    /// direction's once-only bit is on.
    pub open spec fn ghost_handled(self, j: int, k: int) -> bool {
        let v = self.vertices@[j];
        (v.kind == VertexKind::Real && Self::ghost_needed(
            v.x as int,
            v.y as int,
            v.search_radius_sq as int,
            Self::ghost_direction_of(k),
            self.domain,
        )) ==> v.ghosts_added & (1u16 << (sort_list_id(Self::ghost_direction_of(k)) as u16)) != 0
    }

    /// Runs the periodic ghost policy over every real generator: inserts the
    /// mirror images the policy asks for, in each direction at most once per
    /// generator over the lifetime of the triangulation.
    pub fn add_ghost_points(&mut self) -> (r: Result<(), DelaunayError>)
        requires
            old(self).wf(),
        ensures
            final(self).wf(),
            Self::same_frame(*old(self), *final(self)),
            Self::preserves_points(*old(self), *final(self)),
            final(self).n_vertices == old(self).n_vertices,
            r is Ok ==> forall|i: int|
                old(self).nv() <= i < final(self).nv() ==> (#[trigger] final(self).vert(i)).kind
                    == VertexKind::Mirror,
            r is Ok && old(self).consistent() ==> final(self).consistent(),
            old(self).n_vertices == 0 ==> r is Ok,
            r is Ok ==> forall|j: int, k: int|
                3 <= j < 3 + old(self).n_vertices && 0 <= k < 8
                    ==> #[trigger] final(self).ghost_handled(j, k),
    {
        let n = self.n_vertices;
        let mut i: usize = 0;
        while i < n
            invariant
                self.wf(),
                self.n_vertices == n,
                n == old(self).n_vertices,
                Self::same_frame(*old(self), *self),
                Self::preserves_points(*old(self), *self),
                old(self).consistent() ==> self.consistent(),
                forall|j: int|
                    old(self).nv() <= j < self.nv() ==> (#[trigger] self.vert(j)).kind
                        == VertexKind::Mirror,
                forall|j: int, k: int|
                    3 <= j < 3 + i && 0 <= k < 8 ==> #[trigger] self.ghost_handled(j, k),
            decreases n - i,
        {
            let vi = 3 + i;
            proof {
                assert(vi < self.nv());
            }
            let mut k: usize = 0;
            while k < 8
                invariant
                    self.wf(),
                    self.n_vertices == n,
                    n == old(self).n_vertices,
                    vi == 3 + i,
                    i < n,
                    Self::same_frame(*old(self), *self),
                    Self::preserves_points(*old(self), *self),
                    old(self).consistent() ==> self.consistent(),
                    forall|j: int|
                        old(self).nv() <= j < self.nv() ==> (#[trigger] self.vert(j)).kind
                            == VertexKind::Mirror,
                    forall|j: int, k2: int|
                        3 <= j < 3 + i && 0 <= k2 < 8 ==> #[trigger] self.ghost_handled(j, k2),
                    forall|k2: int|
                        0 <= k2 < k ==> #[trigger] self.ghost_handled(vi as int, k2),
                decreases 8 - k,
            {
                proof {
                    assert(vi < self.nv());
                    assert(Self::vertex_ok(self.vertices@[vi as int], self.nt()));
                }
                let dir = Self::ghost_direction(k);
                let sid = direction_to_sort_list_id(dir);
                let bit: u16 = 1u16 << (sid as u16);
                let vrec = self.vertices[vi];
                proof {
                    assert(bit != 0) by (bit_vector)
                        requires
                            bit == 1u16 << (sid as u16),
                            sid < 16,
                    ;
                }
                if vrec.kind == VertexKind::Real && vrec.ghosts_added & bit == 0 {
                    if self.check_ghost_needed(vrec.x, vrec.y, vrec.search_radius_sq, dir) {
                        let ghost dpre = *self;
                        match self.insert_ghost_point(vrec.x, vrec.y, dir) {
                            Result::Ok(_) => {},
                            Result::Err(e) => {
                                return Err(e);
                            },
                        }
                        let ghost dmid = *self;
                        proof {
                            assert(vi < self.nv());
                        }
                        self.mark_ghost_added(vi as i32, bit);
                        proof {
                            Self::lemma_consistent_stable(dmid, *self);
                            assert forall|j: int|
                                old(self).nv() <= j < self.nv() implies (#[trigger] self.vert(
                                j,
                            )).kind == VertexKind::Mirror by {
                                assert(self.vertices@[j] == dmid.vertices@[j]);
                                if j < dpre.nv() {
                                    assert(Self::same_but_backref(
                                        dpre.vertices@[j],
                                        dmid.vertices@[j],
                                    ));
                                    assert(dpre.vert(j).kind == VertexKind::Mirror);
                                } else {
                                    assert(j == dpre.nv());
                                    assert(dmid.vert(j).kind == VertexKind::Mirror);
                                }
                            }
                            // the vertex's bits grew by this direction's bit;
                            // every direction handled before stays handled
                            let newbits = self.vertices@[vi as int].ghosts_added;
                            let oldbits = dpre.vertices@[vi as int].ghosts_added;
                            assert(newbits == oldbits | bit);
                            assert(newbits & bit != 0) by (bit_vector)
                                requires
                                    newbits == oldbits | bit,
                                    bit != 0,
                            ;
                            assert forall|j: int, k2: int|
                                3 <= j < 3 + i && 0 <= k2 < 8 implies #[trigger] self.ghost_handled(
                                j,
                                k2,
                            ) by {
                                assert(dpre.ghost_handled(j, k2));
                                assert(j != vi);
                                assert(Self::same_but_backref(
                                    dpre.vertices@[j],
                                    dmid.vertices@[j],
                                ));
                                assert(self.vertices@[j] == dmid.vertices@[j]);
                                assert(dmid.vertices@[j].ghosts_added
                                    == dpre.vertices@[j].ghosts_added);
                                assert(dmid.vertices@[j].search_radius_sq
                                    == dpre.vertices@[j].search_radius_sq);
                            }
                            assert forall|k2: int|
                                0 <= k2 < k + 1 implies #[trigger] self.ghost_handled(
                                vi as int,
                                k2,
                            ) by {
                                if k2 < k {
                                    assert(dpre.ghost_handled(vi as int, k2));
                                    assert(Self::same_but_backref(
                                        dpre.vertices@[vi as int],
                                        dmid.vertices@[vi as int],
                                    ));
                                    assert(dmid.vertices@[vi as int].ghosts_added == oldbits);
                                    assert(dmid.vertices@[vi as int].search_radius_sq
                                        == dpre.vertices@[vi as int].search_radius_sq);
                                    let b2 = (1u16 << (sort_list_id(Self::ghost_direction_of(k2))
                                        as u16));
                                    assert(oldbits & b2 != 0 ==> newbits & b2 != 0)
                                        by (bit_vector)
                                        requires
                                            newbits == oldbits | bit,
                                    ;
                                } else {
                                    assert(self.ghost_handled(vi as int, k2)) by {
                                        assert(newbits & bit != 0);
                                    }
                                }
                            }
                        }
                    } else {
                        proof {
                            // the policy does not demand this image
                            assert(self.ghost_handled(vi as int, k as int));
                        }
                    }
                } else {
                    proof {
                        // not a real generator, or the image is already there
                        assert(self.ghost_handled(vi as int, k as int));
                    }
                }
                k = k + 1;
            }
            i = i + 1;
        }
        Ok(())
    }

    /// Builds the triangulation of a point batch over a domain: the
    /// super-triangle first, then every real point in input order, then, for
    /// a periodic domain, the ghost images of the boundary policy.
    pub fn from_points(
        points_x: &Vec<i64>,
        points_y: &Vec<i64>,
        domain: SimulationDomain2D,
        make_periodic: bool,
    ) -> (r: Result<DelaunayTriangulation2D, DelaunayError>)
        requires
            points_x@.len() == points_y@.len(),
            points_x@.len() <= 233000,
            forall|i: int|
                0 <= i < points_x@.len() ==> -COORD_LIMIT <= #[trigger] points_x@[i]
                    <= COORD_LIMIT,
            forall|i: int|
                0 <= i < points_y@.len() ==> -COORD_LIMIT <= #[trigger] points_y@[i]
                    <= COORD_LIMIT,
            domain.wf(),
        ensures
            (r matches Ok(d) ==> {
                &&& d.wf()
                &&& d.n_vertices == points_x@.len()
                &&& d.domain == domain
                &&& d.is_periodic == make_periodic
                &&& d.nv() >= 3 + points_x@.len()
                &&& forall|i: int|
                    0 <= i < points_x@.len() ==> {
                        &&& (#[trigger] d.vert(3 + i)).x == points_x@[i]
                        &&& d.vert(3 + i).y == points_y@[i]
                        &&& d.vert(3 + i).kind == VertexKind::Real
                    }
                &&& forall|i: int|
                    3 + points_x@.len() <= i < d.nv() ==> (#[trigger] d.vert(i)).kind
                        == VertexKind::Mirror
                &&& d.consistent()
            }),
            points_x@.len() == 0 ==> r is Ok,
    {
        let n = points_x.len();
        let mut d = DelaunayTriangulation2D::new(domain, n + 3, 2 * n + 8);
        let mut i: usize = 0;
        while i < n
            invariant
                d.wf(),
                d.n_vertices == i,
                i <= n,
                n == points_x@.len(),
                n == points_y@.len(),
                n <= 233000,
                d.nv() == 3 + i,
                d.domain == domain,
                !d.is_periodic,
                d.consistent(),
                forall|j: int|
                    0 <= j < n ==> -COORD_LIMIT <= #[trigger] points_x@[j] <= COORD_LIMIT,
                forall|j: int|
                    0 <= j < n ==> -COORD_LIMIT <= #[trigger] points_y@[j] <= COORD_LIMIT,
                forall|j: int|
                    0 <= j < i ==> {
                        &&& (#[trigger] d.vert(3 + j)).x == points_x@[j]
                        &&& d.vert(3 + j).y == points_y@[j]
                        &&& d.vert(3 + j).kind == VertexKind::Real
                    },
            decreases n - i,
        {
            let ghost dpre = d;
            match d.insert_point(points_x[i], points_y[i]) {
                Result::Ok(_) => {},
                Result::Err(e) => {
                    return Err(e);
                },
            }
            proof {
                assert forall|j: int|
                    0 <= j < i + 1 implies {
                    &&& (#[trigger] d.vert(3 + j)).x == points_x@[j]
                    &&& d.vert(3 + j).y == points_y@[j]
                    &&& d.vert(3 + j).kind == VertexKind::Real
                } by {
                    if j < i {
                        assert(DelaunayTriangulation2D::same_but_backref(
                            dpre.vertices@[3 + j],
                            d.vertices@[3 + j],
                        ));
                        assert(dpre.vert(3 + j).x == points_x@[j]);
                    }
                }
            }
            i = i + 1;
        }
        if make_periodic {
            let ghost dpre = d;
            d.mark_periodic();
            proof {
                DelaunayTriangulation2D::lemma_consistent_stable(dpre, d);
            }
            match d.add_ghost_points() {
                Result::Ok(_) => {},
                Result::Err(e) => {
                    return Err(e);
                },
            }
        }
        Ok(d)
    }

    /// Walks the one-ring of a generator and returns the incident triangles
    /// with the slot the generator occupies in each, in counter-clockwise
    /// order. `OutsideDomain` reports a ring that touches a dummy triangle
    /// (the cell is to be omitted); `Invariant` reports a broken mesh.
    pub(crate) fn ring_with_slots(&self, generator_idx: usize) -> (r: Result<
        (Vec<i32>, Vec<i8>),
        DelaunayError,
    >)
        requires
            self.wf(),
            generator_idx < self.nv(),
        ensures
            r is Ok ==> self.backref_ok_at(generator_idx as int),
            (r matches Ok(rs) ==> {
                &&& self.generator_ring(generator_idx as int, rs.0@, rs.1@)
                &&& rs.0@.len() <= 16777217
            }),
            (r matches Err(e) ==> e == DelaunayError::OutsideDomain || e
                == DelaunayError::Invariant),
    {
        let vrec = self.vertices[generator_idx];
        proof {
            assert(Self::vertex_ok(
                self.vertices@[generator_idx as int],
                self.nt(),
            ));
        }
        if vrec.triangle < 3 || vrec.index_in_triangle < 0 {
            return Err(DelaunayError::Invariant);
        }
        let start_t = vrec.triangle;
        let start_s = vrec.index_in_triangle;
        {
            proof {
                assert(self.tri(start_t as int).valid(
                    self.nv(),
                    self.nt(),
                ));
            }
            let rec = self.triangles[start_t as usize];
            if rec.vertices[start_s as usize] != generator_idx as i32 {
                return Err(DelaunayError::Invariant);
            }
        }
        let mut ts: Vec<i32> = Vec::new();
        let mut ss: Vec<i8> = Vec::new();
        let mut t = start_t;
        let mut s = start_s;
        let mut steps: usize = 0;
        while steps < RING_LIMIT
            invariant
                self.wf(),
                self.backref_ok_at(generator_idx as int),
                generator_idx < self.nv(),
                3 <= t < self.nt(),
                0 <= s < 3,
                self.tri(t as int).vertices[s as int] == generator_idx,
                ts@.len() == ss@.len(),
                ts@.len() <= steps + 1,
                ts@.len() == 0 ==> t == start_t && s == start_s,
                ts@.len() > 0 ==> ts@[0] == start_t && ss@[0] == start_s,
                forall|k: int| 0 <= k < ts@.len() ==> 3 <= #[trigger] ts@[k] < self.nt(),
                forall|k: int| 0 <= k < ss@.len() ==> 0 <= #[trigger] ss@[k] < 3,
                forall|k: int|
                    0 <= k < ts@.len() ==> self.tri(
                        (#[trigger] ts@[k]) as int,
                    ).vertices[ss@[k] as int] == generator_idx,
                forall|k: int|
                    0 <= k < ts@.len() - 1 ==> self.tri(
                        (#[trigger] ts@[k]) as int,
                    ).neighbours[(ss@[k] + 1) % 3] == ts@[k + 1],
                ts@.len() > 0 ==> self.tri(ts@[ts@.len() - 1] as int).neighbours[(
                ss@[ts@.len() - 1] + 1) % 3] == t,
            decreases RING_LIMIT - steps,
        {
            let ghost ts_pre = ts@;
            let ghost ss_pre = ss@;
            ts.push(t);
            ss.push(s);
            proof {
                assert(self.tri(t as int).valid(self.nv(), self.nt()));
                assert(ts@[ts@.len() - 1] == t && ss@[ss@.len() - 1] == s);
                assert forall|k: int| 0 <= k < ts@.len() implies 3 <= #[trigger] ts@[k]
                    < self.nt() by {
                    if k < ts@.len() - 1 {
                        assert(ts@[k] == ts_pre[k]);
                    }
                }
                assert forall|k: int| 0 <= k < ss@.len() implies 0 <= #[trigger] ss@[k] < 3 by {
                    if k < ss@.len() - 1 {
                        assert(ss@[k] == ss_pre[k]);
                    }
                }
                assert forall|k: int| 0 <= k < ts@.len() implies self.tri(
                    (#[trigger] ts@[k]) as int,
                ).vertices[ss@[k] as int] == generator_idx by {
                    if k < ts@.len() - 1 {
                        assert(ts@[k] == ts_pre[k]);
                        assert(ss@[k] == ss_pre[k]);
                    }
                }
                assert forall|k: int| 0 <= k < ts@.len() - 1 implies self.tri(
                    (#[trigger] ts@[k]) as int,
                ).neighbours[(ss@[k] + 1) % 3] == ts@[k + 1] by {
                    if k < ts@.len() - 2 {
                        assert(ts@[k] == ts_pre[k]);
                        assert(ss@[k] == ss_pre[k]);
                        assert(ts@[k + 1] == ts_pre[k + 1]);
                    }
                }
            }
            let rec = self.triangles[t as usize];
            let exit = ((s as usize) + 1) % 3;
            let next_t = rec.neighbours[exit];
            if next_t < 3 {
                return Err(DelaunayError::OutsideDomain);
            }
            let next_s_us = ((rec.index_in_neighbours[exit] as usize) + 1) % 3;
            proof {
                assert(self.tri(next_t as int).valid(
                    self.nv(),
                    self.nt(),
                ));
            }
            let next_rec = self.triangles[next_t as usize];
            if next_rec.vertices[next_s_us] != generator_idx as i32 {
                return Err(DelaunayError::Invariant);
            }
            let next_s = next_s_us as i8;
            if next_t == start_t && next_s == start_s {
                if ts.len() >= 2 {
                    return Ok((ts, ss));
                } else {
                    return Err(DelaunayError::Invariant);
                }
            }
            t = next_t;
            s = next_s;
            steps = steps + 1;
        }
        Err(DelaunayError::Invariant)
    }

    /// The indices of the triangles around `vertex_idx`, in counter-clockwise
    /// order starting from the vertex's own back reference: a closed
    /// one-ring whose consecutive entries are linked through the mesh.
    ///
    /// `OutsideDomain` reports a ring that leaves the hull (it touches a
    /// dummy triangle); `Invariant` reports a broken walk (a back reference
    /// or a neighbour slot that does not lead back to the vertex).
    pub fn get_triangle_idx_around_vertex(&self, vertex_idx: usize) -> (r: Result<
        Vec<usize>,
        DelaunayError,
    >)
        requires
            self.wf(),
            vertex_idx < self.nv(),
        ensures
            r is Ok ==> self.backref_ok_at(vertex_idx as int),
            (r matches Ok(ring) ==> exists|ts2: Seq<i32>, ss2: Seq<i8>|
                {
                    &&& #[trigger] self.generator_ring(vertex_idx as int, ts2, ss2)
                    &&& ring@.len() == ts2.len()
                    &&& forall|j: int|
                        0 <= j < ts2.len() ==> (#[trigger] ring@[j]) as int == ts2[j] as int
                }),
    {
        let rs = match self.ring_with_slots(vertex_idx) {
            Result::Ok(rs) => rs,
            Result::Err(e) => {
                return Err(e);
            },
        };
        let ts = rs.0;
        let n = ts.len();
        let mut ring: Vec<usize> = Vec::new();
        let mut j: usize = 0;
        while j < n
            invariant
                n == ts@.len(),
                n <= 16777217,
                forall|k: int| 0 <= k < ts@.len() ==> 3 <= #[trigger] ts@[k],
                j <= n,
                ring@.len() == j,
                forall|k: int| 0 <= k < j ==> (#[trigger] ring@[k]) as int == ts@[k] as int,
            decreases n - j,
        {
            let ti = ts[j];
            ring.push(ti as usize);
            proof {
                assert forall|k: int|
                    0 <= k < j + 1 implies (#[trigger] ring@[k]) as int == ts@[k] as int by {}
            }
            j = j + 1;
        }
        proof {
            assert(self.generator_ring(vertex_idx as int, rs.0@, rs.1@));
        }
        Ok(ring)
    }

    /// The neighbour relation is symmetric through the slot records: the
    /// neighbour at slot `s` of triangle `t` points back at `t` from the
    /// recorded slot.
    pub open spec fn neighbour_symmetric_at(self, t: int, s: int) -> bool {
        &&& self.tri(self.tri(t).neighbours[s] as int).neighbours[self.tri(
            t,
        ).index_in_neighbours[s] as int] == t
        &&& self.tri(self.tri(t).neighbours[s] as int).index_in_neighbours[self.tri(
            t,
        ).index_in_neighbours[s] as int] == s
    }

    pub open spec fn neighbour_symmetric(self) -> bool {
        forall|t: int, s: int|
            3 <= t < self.nt() && 0 <= s < 3 ==> #[trigger] self.neighbour_symmetric_at(t, s)
    }

    pub open spec fn tri_contains_vertex(rec: DelaunayTriangle2D, v: i32) -> bool {
        rec.vertices[0] == v || rec.vertices[1] == v || rec.vertices[2] == v
    }

    /// How many of `a`'s corners also sit in `b`.
    pub open spec fn shared_count(a: DelaunayTriangle2D, b: DelaunayTriangle2D) -> int {
        (if Self::tri_contains_vertex(b, a.vertices[0]) {
            1int
        } else {
            0int
        }) + (if Self::tri_contains_vertex(b, a.vertices[1]) {
            1int
        } else {
            0int
        }) + (if Self::tri_contains_vertex(b, a.vertices[2]) {
            1int
        } else {
            0int
        })
    }

    /// Neighbouring triangles share exactly two vertex indices.
    pub open spec fn shares_two_at(self, t: int, s: int) -> bool {
        Self::shared_count(self.tri(t), self.tri(self.tri(t).neighbours[s] as int)) == 2
    }

    pub open spec fn shares_two(self) -> bool {
        forall|t: int, s: int|
            3 <= t < self.nt() && 0 <= s < 3 ==> #[trigger] self.shares_two_at(t, s)
    }

    /// The local Delaunay criterion across the edge at slot `s` of triangle
    /// `t`: the opposite vertex of a non-dummy neighbour is not strictly
    /// inside the circumcircle of `t`.
    pub open spec fn delaunay_at(self, t: int, s: int) -> bool {
        let n = self.tri(t).neighbours[s] as int;
        let d = self.tri(n).vertices[self.tri(t).index_in_neighbours[s] as int] as int;
        n >= 3 ==> in_circle(
            self.cx(t, 0), self.cy(t, 0), self.cx(t, 1), self.cy(t, 1),
            self.cx(t, 2), self.cy(t, 2), self.vert(d).x as int, self.vert(d).y as int,
        ) >= 0
    }

    pub open spec fn locally_delaunay(self) -> bool {
        forall|t: int, s: int|
            3 <= t < self.nt() && 0 <= s < 3 ==> #[trigger] self.delaunay_at(t, s)
    }

    /// The lists `ts`/`ss` walk the one-ring of `gen` in counter-clockwise
    /// order: every entry is a non-dummy triangle holding `gen` at the
    /// recorded slot, consecutive entries are linked through the
    /// slot-plus-one neighbour, and the last entry links back to the first
    /// (the ring is closed).
    pub open spec fn generator_ring(self, gen: int, ts: Seq<i32>, ss: Seq<i8>) -> bool {
        &&& ts.len() == ss.len()
        &&& 2 <= ts.len()
        &&& forall|k: int| 0 <= k < ts.len() ==> 3 <= #[trigger] ts[k] < self.nt()
        &&& forall|k: int| 0 <= k < ss.len() ==> 0 <= #[trigger] ss[k] < 3
        &&& forall|k: int|
            0 <= k < ts.len() ==> self.tri((#[trigger] ts[k]) as int).vertices[ss[k] as int]
                == gen
        &&& forall|k: int|
            0 <= k < ts.len() - 1 ==> self.tri(
                (#[trigger] ts[k]) as int,
            ).neighbours[(ss[k] + 1) % 3] == ts[k + 1]
        &&& self.tri(ts[ts.len() - 1] as int).neighbours[(ss[ts.len() - 1] + 1) % 3] == ts[0]
    }

    /// The back reference of vertex `v` leads to a triangle that holds `v`
    /// at the recorded slot.
    pub open spec fn backref_ok_at(self, v: int) -> bool {
        &&& self.vert(v).triangle >= 0
        &&& self.vert(v).index_in_triangle >= 0
        &&& self.tri(self.vert(v).triangle as int).vertices[self.vert(
            v,
        ).index_in_triangle as int] == v
    }

    pub open spec fn backrefs_ok(self) -> bool {
        forall|v: int| 0 <= v < self.nv() ==> #[trigger] self.backref_ok_at(v)
    }

    /// The full consistency sweep: neighbour symmetry, two shared vertices
    /// per interior edge, the local Delaunay criterion, and vertex-triangle
    /// correspondence.
    pub open spec fn consistent(self) -> bool {
        &&& self.neighbour_symmetric()
        &&& self.shares_two()
        &&& self.locally_delaunay()
        &&& self.backrefs_ok()
    }

    /// Consistency depends only on the triangle records and on the mesh
    /// fields of the vertices: a state that keeps those (bookkeeping such
    /// as search radii or ghost bits may differ) is consistent whenever the
    /// first one is.
    pub proof fn lemma_consistent_stable(a: Self, b: Self)
        requires
            a.wf_core(),
            b.triangles@ == a.triangles@,
            b.vertices@.len() == a.vertices@.len(),
            forall|i: int|
                0 <= i < a.vertices@.len() ==> {
                    &&& (#[trigger] b.vertices@[i]).x == a.vertices@[i].x
                    &&& b.vertices@[i].y == a.vertices@[i].y
                    &&& b.vertices@[i].triangle == a.vertices@[i].triangle
                    &&& b.vertices@[i].index_in_triangle == a.vertices@[i].index_in_triangle
                },
            a.consistent(),
        ensures
            b.consistent(),
    {
        assert forall|t: int, s: int|
            3 <= t < b.nt() && 0 <= s < 3 implies #[trigger] b.neighbour_symmetric_at(t, s) by {
            assert(a.neighbour_symmetric_at(t, s));
            assert(b.tri(t) == a.tri(t));
            assert(b.tri(a.tri(t).neighbours[s] as int) == a.tri(a.tri(t).neighbours[s] as int));
        }
        assert forall|t: int, s: int|
            3 <= t < b.nt() && 0 <= s < 3 implies #[trigger] b.shares_two_at(t, s) by {
            assert(a.shares_two_at(t, s));
            assert(b.tri(t) == a.tri(t));
            assert(b.tri(a.tri(t).neighbours[s] as int) == a.tri(a.tri(t).neighbours[s] as int));
        }
        assert forall|t: int, s: int|
            3 <= t < b.nt() && 0 <= s < 3 implies #[trigger] b.delaunay_at(t, s) by {
            assert(a.delaunay_at(t, s));
            assert(b.tri(t) == a.tri(t));
            assert(a.tri(t).valid(a.nv(), a.nt()));
            let n = a.tri(t).neighbours[s] as int;
            assert(b.tri(n) == a.tri(n));
            if n >= 3 {
                assert(a.tri(n).valid(a.nv(), a.nt()));
                assert(b.cx(t, 0) == a.cx(t, 0) && b.cy(t, 0) == a.cy(t, 0));
                assert(b.cx(t, 1) == a.cx(t, 1) && b.cy(t, 1) == a.cy(t, 1));
                assert(b.cx(t, 2) == a.cx(t, 2) && b.cy(t, 2) == a.cy(t, 2));
                let d = a.tri(n).vertices[a.tri(t).index_in_neighbours[s] as int] as int;
                assert(b.vert(d).x == a.vert(d).x && b.vert(d).y == a.vert(d).y);
            }
        }
        assert forall|v: int| 0 <= v < b.nv() implies #[trigger] b.backref_ok_at(v) by {
            assert(a.backref_ok_at(v));
            assert(b.vert(v).triangle == a.vert(v).triangle);
            assert(b.vert(v).index_in_triangle == a.vert(v).index_in_triangle);
            assert(b.tri(a.vert(v).triangle as int) == a.tri(a.vert(v).triangle as int));
        }
    }

    /// Sweeps the whole mesh and decides, exactly, whether `consistent`
    /// holds of it.
    pub fn consistency_check(&self) -> (r: Result<(), DelaunayError>)
        requires
            self.wf(),
        ensures
            r is Ok <==> self.consistent(),
    {
        let nt = self.triangles.len();
        let mut t: usize = 3;
        while t < nt
            invariant
                self.wf(),
                3 <= t <= nt,
                nt == self.nt(),
                forall|t2: int, s2: int|
                    3 <= t2 < t && 0 <= s2 < 3 ==> #[trigger] self.neighbour_symmetric_at(t2, s2),
                forall|t2: int, s2: int|
                    3 <= t2 < t && 0 <= s2 < 3 ==> #[trigger] self.shares_two_at(t2, s2),
                forall|t2: int, s2: int|
                    3 <= t2 < t && 0 <= s2 < 3 ==> #[trigger] self.delaunay_at(t2, s2),
            decreases nt - t,
        {
            let rec = self.triangles[t];
            proof {
                assert(self.tri(t as int).valid(self.nv(), self.nt()));
            }
            let mut s: usize = 0;
            while s < 3
                invariant
                    self.wf(),
                    3 <= t < nt,
                    s <= 3,
                    nt == self.nt(),
                    rec == self.tri(t as int),
                    forall|t2: int, s2: int|
                        3 <= t2 < t && 0 <= s2 < 3 ==> #[trigger] self.neighbour_symmetric_at(
                            t2,
                            s2,
                        ),
                    forall|t2: int, s2: int|
                        3 <= t2 < t && 0 <= s2 < 3 ==> #[trigger] self.shares_two_at(t2, s2),
                    forall|t2: int, s2: int|
                        3 <= t2 < t && 0 <= s2 < 3 ==> #[trigger] self.delaunay_at(t2, s2),
                    forall|s2: int|
                        0 <= s2 < s ==> #[trigger] self.neighbour_symmetric_at(t as int, s2),
                    forall|s2: int| 0 <= s2 < s ==> #[trigger] self.shares_two_at(t as int, s2),
                    forall|s2: int| 0 <= s2 < s ==> #[trigger] self.delaunay_at(t as int, s2),
                decreases 3 - s,
            {
                proof {
                    assert(self.tri(t as int).valid(self.nv(), self.nt()));
                }
                let ngbr = rec.neighbours[s];
                let idx_in_ngbr = rec.index_in_neighbours[s] as usize;
                let nrec = self.triangles[ngbr as usize];

                // neighbouring relation symmetry, through both the
                // back-pointer and the recorded slot
                if nrec.neighbours[idx_in_ngbr] != t as i32 || nrec.index_in_neighbours[idx_in_ngbr]
                    != s as i8 {
                    proof {
                        assert(!self.neighbour_symmetric_at(t as int, s as int));
                    }
                    return Err(DelaunayError::Invariant);
                }

                // overlapping vertices
                let c0 = nrec.vertices[0] == rec.vertices[0] || nrec.vertices[1]
                    == rec.vertices[0] || nrec.vertices[2] == rec.vertices[0];
                let c1 = nrec.vertices[0] == rec.vertices[1] || nrec.vertices[1]
                    == rec.vertices[1] || nrec.vertices[2] == rec.vertices[1];
                let c2 = nrec.vertices[0] == rec.vertices[2] || nrec.vertices[1]
                    == rec.vertices[2] || nrec.vertices[2] == rec.vertices[2];
                let n_overlap: u32 = (if c0 {
                    1
                } else {
                    0
                }) + (if c1 {
                    1
                } else {
                    0
                }) + (if c2 {
                    1
                } else {
                    0
                });
                if n_overlap != 2 {
                    proof {
                        assert(!self.shares_two_at(t as int, s as int));
                    }
                    return Err(DelaunayError::Invariant);
                }

                // Delaunay criterion, skipping dummy neighbours
                if ngbr >= 3 {
                    proof {
                        assert(self.tri(ngbr as int).valid(self.nv(), self.nt()));
                    }
                    let a = self.vertices[rec.vertices[0] as usize];
                    let b = self.vertices[rec.vertices[1] as usize];
                    let c = self.vertices[rec.vertices[2] as usize];
                    let d = self.vertices[nrec.vertices[idx_in_ngbr] as usize];
                    let in_circle_test = in_circle_2d(a.x, a.y, b.x, b.y, c.x, c.y, d.x, d.y);
                    if in_circle_test < 0 {
                        proof {
                            assert(!self.delaunay_at(t as int, s as int));
                        }
                        return Err(DelaunayError::Invariant);
                    }
                }
                proof {
                    assert(self.neighbour_symmetric_at(t as int, s as int));
                    assert(self.shares_two_at(t as int, s as int));
                    assert(self.delaunay_at(t as int, s as int));
                }
                s = s + 1;
            }
            t = t + 1;
        }

        let nv = self.vertices.len();
        let mut v: usize = 0;
        while v < nv
            invariant
                self.wf(),
                v <= nv,
                nv == self.nv(),
                nt == self.nt(),
                self.neighbour_symmetric(),
                self.shares_two(),
                self.locally_delaunay(),
                forall|v2: int| 0 <= v2 < v ==> #[trigger] self.backref_ok_at(v2),
            decreases nv - v,
        {
            let rec = self.vertices[v];
            proof {
                assert(Self::vertex_ok(self.vertices@[v as int], self.nt()));
            }
            if rec.triangle < 0 || rec.index_in_triangle < 0 {
                proof {
                    assert(!self.backref_ok_at(v as int));
                }
                return Err(DelaunayError::Invariant);
            }
            let trec = self.triangles[rec.triangle as usize];
            if trec.vertices[rec.index_in_triangle as usize] != v as i32 {
                proof {
                    assert(!self.backref_ok_at(v as int));
                }
                return Err(DelaunayError::Invariant);
            }
            proof {
                assert(self.backref_ok_at(v as int));
            }
            v = v + 1;
        }
        Ok(())
    }

    /// Stores a new squared search radius on vertex `v`.
    fn set_search_radius(&mut self, v: i32, r_sq: i64)
        requires
            old(self).wf(),
            0 <= v < old(self).nv(),
            0 <= r_sq,
        ensures
            final(self).wf(),
            final(self).nv() == old(self).nv(),
            Self::preserves_points(*old(self), *final(self)),
            Self::same_frame(*old(self), *final(self)),
            final(self).triangles == old(self).triangles,
            final(self).triangles_to_check == old(self).triangles_to_check,
            final(self).current_triangle_idx == old(self).current_triangle_idx,
            final(self).current_vertex_idx == old(self).current_vertex_idx,
            final(self).n_vertices == old(self).n_vertices,
            final(self).vert(v as int).search_radius_sq == r_sq,
            forall|i: int|
                0 <= i < final(self).nv() && i != v ==> #[trigger] final(self).vertices@[i] == old(
                    self,
                ).vertices@[i],
    {
        let mut rec = self.vertices[v as usize];
        rec.search_radius_sq = r_sq;
        self.vertices.set(v as usize, rec);
        proof {
            Self::lemma_arenas_stable_vertex_update(*old(self), *self, v as int);
        }
    }

    /// The search-radius bound that triangle `t` contributes to its corner
    /// at slot `k`: four times the squared distance from that corner to the
    /// triangle's circumcenter (no Delaunay edge from the corner can reach
    /// further than twice the largest incident circumradius), saturated at
    /// the seed value. In squared `VOR_SCALE` units.
    pub open spec fn radius_candidate(self, t: int, k: int) -> int {
        let ccx = crate::geometry::cc_scaled_x(
            self.cx(t, 0), self.cy(t, 0), self.cx(t, 1),
            self.cy(t, 1), self.cx(t, 2), self.cy(t, 2),
        );
        let ccy = crate::geometry::cc_scaled_y(
            self.cx(t, 0), self.cy(t, 0), self.cx(t, 1),
            self.cy(t, 1), self.cx(t, 2), self.cy(t, 2),
        );
        let dx = self.cx(t, k) * 1024 - ccx;
        let dy = self.cy(t, k) * 1024 - ccy;
        let c = 4 * (dx * dx + dy * dy);
        if c > SEED_RADIUS_SQ {
            SEED_RADIUS_SQ as int
        } else {
            c
        }
    }

    /// Refreshes the squared search radius of the first `count` real
    /// generators: at least `r_min_sq`, and at least four times the squared
    /// circumradius of every incident triangle (the classical bound beyond
    /// which no Delaunay edge from the vertex can reach), saturated at the
    /// seed value.
    pub fn update_vertex_search_radii(&mut self, r_min_sq: i64, count: usize) -> (r: Result<
        (),
        DelaunayError,
    >)
        requires
            old(self).wf(),
            0 <= r_min_sq,
            count <= old(self).n_vertices,
        ensures
            final(self).wf(),
            final(self).nv() == old(self).nv(),
            final(self).nt() == old(self).nt(),
            Self::preserves_points(*old(self), *final(self)),
            Self::same_frame(*old(self), *final(self)),
            final(self).triangles == old(self).triangles,
            final(self).n_vertices == old(self).n_vertices,
            r is Ok ==> forall|v: int|
                3 <= v < 3 + count ==> (#[trigger] final(self).vert(v)).search_radius_sq
                    >= r_min_sq,
            r is Ok ==> forall|t: int, k: int|
                3 <= t < final(self).nt() && 0 <= k < 3 && 3 <= final(self).tri(t).vertices[k] < 3
                    + count ==> final(self).vert(
                    final(self).tri(t).vertices[k] as int,
                ).search_radius_sq >= #[trigger] final(self).radius_candidate(t, k),
            (forall|t: int|
                3 <= t < old(self).nt() ==> #[trigger] old(self).circumcenter_in_box(t)) ==> r
                is Ok,
    {
        // Seed every updated vertex with the floor value.
        let mut v: usize = 3;
        while v < 3 + count
            invariant
                self.wf(),
                self.nv() == old(self).nv(),
                self.nt() == old(self).nt(),
                count <= old(self).n_vertices,
                self.n_vertices == old(self).n_vertices,
                Self::preserves_points(*old(self), *self),
                Self::same_frame(*old(self), *self),
                self.triangles == old(self).triangles,
                3 <= v <= 3 + count,
                0 <= r_min_sq,
                forall|v2: int|
                    3 <= v2 < v ==> (#[trigger] self.vert(v2)).search_radius_sq >= r_min_sq,
            decreases 3 + count - v,
        {
            proof {
                assert(v < self.nv());
            }
            let ghost dpre = *self;
            self.set_search_radius(v as i32, r_min_sq);
            proof {
                assert forall|v2: int|
                    3 <= v2 < v + 1 implies (#[trigger] self.vert(v2)).search_radius_sq
                    >= r_min_sq by {
                    if v2 < v {
                        assert(self.vertices@[v2] == dpre.vertices@[v2]);
                        assert(dpre.vert(v2).search_radius_sq >= r_min_sq);
                    } else {
                        assert(v2 == v as i32 as int);
                        assert(self.vert(v2).search_radius_sq == r_min_sq);
                    }
                }
            }
            v = v + 1;
        }

        // Raise each radius to the largest incident-circumradius bound.
        let nt = self.triangles.len();
        let mut t: usize = 3;
        while t < nt
            invariant
                self.wf(),
                self.nv() == old(self).nv(),
                self.nt() == old(self).nt(),
                nt == self.nt(),
                count <= old(self).n_vertices,
                self.n_vertices == old(self).n_vertices,
                Self::preserves_points(*old(self), *self),
                Self::same_frame(*old(self), *self),
                self.triangles == old(self).triangles,
                3 <= t <= nt,
                0 <= r_min_sq,
                forall|v2: int|
                    3 <= v2 < 3 + count ==> (#[trigger] self.vert(v2)).search_radius_sq
                        >= r_min_sq,
                forall|t2: int, k2: int|
                    3 <= t2 < t && 0 <= k2 < 3 && 3 <= self.tri(t2).vertices[k2] < 3 + count
                        ==> self.vert(self.tri(t2).vertices[k2] as int).search_radius_sq
                        >= #[trigger] self.radius_candidate(t2, k2),
            decreases nt - t,
        {
            let cc = match self.triangle_circumcenter(t) {
                Result::Ok(cc) => cc,
                Result::Err(e) => {
                    proof {
                        let ti = t as int;
                        assert(!self.circumcenter_in_box(ti));
                        assert(self.tri(ti) == old(self).tri(ti));
                        assert(self.tri(ti).valid(self.nv(), self.nt()));
                        assert(self.cx(ti, 0) == old(self).cx(ti, 0));
                        assert(self.cy(ti, 0) == old(self).cy(ti, 0));
                        assert(self.cx(ti, 1) == old(self).cx(ti, 1));
                        assert(self.cy(ti, 1) == old(self).cy(ti, 1));
                        assert(self.cx(ti, 2) == old(self).cx(ti, 2));
                        assert(self.cy(ti, 2) == old(self).cy(ti, 2));
                        assert(!old(self).circumcenter_in_box(ti));
                    }
                    return Err(e);
                },
            };
            proof {
                assert(self.tri(t as int).valid(self.nv(), self.nt()));
            }
            let rec = self.triangles[t];
            let mut k: usize = 0;
            while k < 3
                invariant
                    self.wf(),
                    self.nv() == old(self).nv(),
                    self.nt() == old(self).nt(),
                    nt == self.nt(),
                    count <= old(self).n_vertices,
                    self.n_vertices == old(self).n_vertices,
                    Self::preserves_points(*old(self), *self),
                    Self::same_frame(*old(self), *self),
                    self.triangles == old(self).triangles,
                    3 <= t < nt,
                    k <= 3,
                    0 <= r_min_sq,
                    rec == self.tri(t as int),
                    cc.in_bounds(crate::geometry::CC_LIMIT as int),
                    cc.x == crate::geometry::cc_scaled_x(
                        self.cx(t as int, 0), self.cy(t as int, 0), self.cx(t as int, 1),
                        self.cy(t as int, 1), self.cx(t as int, 2), self.cy(t as int, 2),
                    ),
                    cc.y == crate::geometry::cc_scaled_y(
                        self.cx(t as int, 0), self.cy(t as int, 0), self.cx(t as int, 1),
                        self.cy(t as int, 1), self.cx(t as int, 2), self.cy(t as int, 2),
                    ),
                    forall|v2: int|
                        3 <= v2 < 3 + count ==> (#[trigger] self.vert(v2)).search_radius_sq
                            >= r_min_sq,
                    forall|t2: int, k2: int|
                        3 <= t2 < t && 0 <= k2 < 3 && 3 <= self.tri(t2).vertices[k2] < 3 + count
                            ==> self.vert(self.tri(t2).vertices[k2] as int).search_radius_sq
                            >= #[trigger] self.radius_candidate(t2, k2),
                    forall|k2: int|
                        0 <= k2 < k && 3 <= self.tri(t as int).vertices[k2] < 3 + count
                            ==> self.vert(self.tri(t as int).vertices[k2] as int).search_radius_sq
                            >= #[trigger] self.radius_candidate(t as int, k2),
                decreases 3 - k,
            {
                proof {
                    assert(self.tri(t as int).valid(self.nv(), self.nt()));
                }
                let vi = rec.vertices[k];
                if vi >= 3 && (vi as usize) < 3 + count {
                    proof {
                        assert(Self::vertex_ok(self.vertices@[vi as int], self.nt()));
                    }
                    let vrec = self.vertices[vi as usize];
                    proof {
                        let b: int = 0x800000000;
                        crate::geometry::lemma_mul_abs_bound(
                            vrec.x as int * 1024 - cc.x, vrec.x as int * 1024 - cc.x, b, b,
                        );
                        crate::geometry::lemma_mul_abs_bound(
                            vrec.y as int * 1024 - cc.y, vrec.y as int * 1024 - cc.y, b, b,
                        );
                    }
                    let dx: i128 = (vrec.x as i128) * 1024 - cc.x as i128;
                    let dy: i128 = (vrec.y as i128) * 1024 - cc.y as i128;
                    proof {
                        assert(dx * dx >= 0) by (nonlinear_arith);
                        assert(dy * dy >= 0) by (nonlinear_arith);
                    }
                    let dist2: i128 = dx * dx + dy * dy;
                    let cand128: i128 = 4 * dist2;
                    let cand: i64 = if cand128 > SEED_RADIUS_SQ as i128 {
                        SEED_RADIUS_SQ
                    } else {
                        cand128 as i64
                    };
                    proof {
                        assert(cand == self.radius_candidate(t as int, k as int));
                    }
                    let ghost dpre = *self;
                    if cand > vrec.search_radius_sq {
                        self.set_search_radius(vi, cand);
                        proof {
                            assert forall|v2: int|
                                3 <= v2 < 3 + count implies (#[trigger] self.vert(
                                v2,
                            )).search_radius_sq >= r_min_sq by {
                                if v2 != vi {
                                    assert(self.vertices@[v2] == dpre.vertices@[v2]);
                                } else {
                                    assert(cand >= dpre.vert(v2).search_radius_sq);
                                }
                            }
                        }
                    }
                    proof {
                        assert forall|t2: int, k2: int|
                            3 <= t2 < nt && 0 <= k2 < 3 implies #[trigger] self.radius_candidate(
                            t2,
                            k2,
                        ) == dpre.radius_candidate(t2, k2) && self.tri(t2) == dpre.tri(t2) by {
                            assert(self.tri(t2) == dpre.tri(t2));
                            assert(self.cx(t2, 0) == dpre.cx(t2, 0));
                            assert(self.cy(t2, 0) == dpre.cy(t2, 0));
                            assert(self.cx(t2, 1) == dpre.cx(t2, 1));
                            assert(self.cy(t2, 1) == dpre.cy(t2, 1));
                            assert(self.cx(t2, 2) == dpre.cx(t2, 2));
                            assert(self.cy(t2, 2) == dpre.cy(t2, 2));
                            assert(self.cx(t2, k2) == dpre.cx(t2, k2));
                        }
                        assert forall|t2: int, k2: int|
                            3 <= t2 < t && 0 <= k2 < 3 && 3 <= self.tri(t2).vertices[k2] < 3
                                + count implies self.vert(
                            self.tri(t2).vertices[k2] as int,
                        ).search_radius_sq >= #[trigger] self.radius_candidate(t2, k2) by {
                            let v2 = self.tri(t2).vertices[k2] as int;
                            assert(dpre.vert(v2).search_radius_sq >= dpre.radius_candidate(
                                t2,
                                k2,
                            ));
                            if v2 != vi {
                                assert(self.vertices@[v2] == dpre.vertices@[v2]);
                            } else {
                                assert(self.vert(v2).search_radius_sq >= dpre.vert(
                                    v2,
                                ).search_radius_sq);
                            }
                        }
                        assert forall|k2: int|
                            0 <= k2 < k + 1 && 3 <= self.tri(t as int).vertices[k2] < 3
                                + count implies self.vert(
                            self.tri(t as int).vertices[k2] as int,
                        ).search_radius_sq >= #[trigger] self.radius_candidate(t as int, k2) by {
                            let v2 = self.tri(t as int).vertices[k2] as int;
                            if k2 < k {
                                assert(dpre.vert(v2).search_radius_sq >= dpre.radius_candidate(
                                    t as int,
                                    k2,
                                ));
                                if v2 != vi {
                                    assert(self.vertices@[v2] == dpre.vertices@[v2]);
                                } else {
                                    assert(self.vert(v2).search_radius_sq >= dpre.vert(
                                        v2,
                                    ).search_radius_sq);
                                }
                            } else {
                                assert(v2 == vi);
                                assert(self.vert(v2).search_radius_sq >= cand);
                            }
                        }
                    }
                } else {
                    proof {
                        assert forall|k2: int|
                            0 <= k2 < k + 1 && 3 <= self.tri(t as int).vertices[k2] < 3
                                + count implies self.vert(
                            self.tri(t as int).vertices[k2] as int,
                        ).search_radius_sq >= #[trigger] self.radius_candidate(t as int, k2) by {
                            assert(k2 < k);
                        }
                    }
                }
                k = k + 1;
            }
            proof {
                assert forall|t2: int, k2: int|
                    3 <= t2 < t + 1 && 0 <= k2 < 3 && 3 <= self.tri(t2).vertices[k2] < 3
                        + count implies self.vert(
                    self.tri(t2).vertices[k2] as int,
                ).search_radius_sq >= #[trigger] self.radius_candidate(t2, k2) by {
                }
            }
            t = t + 1;
        }
        Ok(())
    }

    /// The scaled circumcenter of triangle `t` fits the `CC_LIMIT` box.
    pub open spec fn circumcenter_in_box(self, t: int) -> bool {
        let sx = crate::geometry::cc_scaled_x(
            self.cx(t, 0), self.cy(t, 0), self.cx(t, 1),
            self.cy(t, 1), self.cx(t, 2), self.cy(t, 2),
        );
        let sy = crate::geometry::cc_scaled_y(
            self.cx(t, 0), self.cy(t, 0), self.cx(t, 1),
            self.cy(t, 1), self.cx(t, 2), self.cy(t, 2),
        );
        &&& -crate::geometry::CC_LIMIT <= sx <= crate::geometry::CC_LIMIT
        &&& -crate::geometry::CC_LIMIT <= sy <= crate::geometry::CC_LIMIT
    }

    /// The circumcenter of triangle `triangle_idx`, on the `VOR_SCALE` grid.
    /// `Invariant` reports, exactly, a circumcenter outside the `CC_LIMIT`
    /// box.
    pub fn triangle_circumcenter(&self, triangle_idx: usize) -> (r: Result<
        crate::geometry::Vertex2D,
        DelaunayError,
    >)
        requires
            self.wf(),
            3 <= triangle_idx < self.nt(),
        ensures
            r is Ok <==> self.circumcenter_in_box(triangle_idx as int),
            (r matches Err(e) ==> e == DelaunayError::Invariant),
            (r matches Ok(v) ==> {
                &&& v.x == crate::geometry::cc_scaled_x(
                    self.cx(triangle_idx as int, 0),
                    self.cy(triangle_idx as int, 0),
                    self.cx(triangle_idx as int, 1),
                    self.cy(triangle_idx as int, 1),
                    self.cx(triangle_idx as int, 2),
                    self.cy(triangle_idx as int, 2),
                )
                &&& v.y == crate::geometry::cc_scaled_y(
                    self.cx(triangle_idx as int, 0),
                    self.cy(triangle_idx as int, 0),
                    self.cx(triangle_idx as int, 1),
                    self.cy(triangle_idx as int, 1),
                    self.cx(triangle_idx as int, 2),
                    self.cy(triangle_idx as int, 2),
                )
                &&& v.in_bounds(crate::geometry::CC_LIMIT as int)
            }),
    {
        proof {
            assert(self.tri(triangle_idx as int).valid(self.nv(), self.nt()));
        }
        let rec = self.triangles[triangle_idx];
        let a = self.vertices[rec.vertices[0] as usize];
        let b = self.vertices[rec.vertices[1] as usize];
        let c = self.vertices[rec.vertices[2] as usize];
        proof {
            let t = triangle_idx as int;
            assert(a.x == self.cx(t, 0) && a.y == self.cy(t, 0));
            assert(b.x == self.cx(t, 1) && b.y == self.cy(t, 1));
            assert(c.x == self.cx(t, 2) && c.y == self.cy(t, 2));
            assert(self.tri_orient(t) > 0);
        }
        match crate::geometry::circumcenter_2d(a.x, a.y, b.x, b.y, c.x, c.y) {
            Option::Some(v) => Ok(v),
            Option::None => Err(DelaunayError::Invariant),
        }
    }

    /// A positively oriented triangle has three pairwise distinct corners:
    /// two equal vertex indices would give it coinciding corner points and a
    /// vanishing signed area.
    pub proof fn lemma_oriented_triangle_has_distinct_corners(self, t: int)
        requires
            self.wf(),
            3 <= t < self.nt(),
        ensures
            self.tri(t).vertices[0] != self.tri(t).vertices[1],
            self.tri(t).vertices[1] != self.tri(t).vertices[2],
            self.tri(t).vertices[0] != self.tri(t).vertices[2],
    {
        assert(self.tri_orient(t) > 0);
        if self.tri(t).vertices[0] == self.tri(t).vertices[1] {
            assert(self.cx(t, 0) == self.cx(t, 1) && self.cy(t, 0) == self.cy(t, 1));
            assert(self.tri_orient(t) == 0) by (nonlinear_arith)
                requires
                    self.tri_orient(t) == orient2d(
                        self.cx(t, 0), self.cy(t, 0), self.cx(t, 1),
                        self.cy(t, 1), self.cx(t, 2), self.cy(t, 2),
                    ),
                    self.cx(t, 0) == self.cx(t, 1),
                    self.cy(t, 0) == self.cy(t, 1),
            ;
        }
        if self.tri(t).vertices[1] == self.tri(t).vertices[2] {
            assert(self.cx(t, 1) == self.cx(t, 2) && self.cy(t, 1) == self.cy(t, 2));
            assert(self.tri_orient(t) == 0) by (nonlinear_arith)
                requires
                    self.tri_orient(t) == orient2d(
                        self.cx(t, 0), self.cy(t, 0), self.cx(t, 1),
                        self.cy(t, 1), self.cx(t, 2), self.cy(t, 2),
                    ),
                    self.cx(t, 1) == self.cx(t, 2),
                    self.cy(t, 1) == self.cy(t, 2),
            ;
        }
        if self.tri(t).vertices[0] == self.tri(t).vertices[2] {
            assert(self.cx(t, 0) == self.cx(t, 2) && self.cy(t, 0) == self.cy(t, 2));
            assert(self.tri_orient(t) == 0) by (nonlinear_arith)
                requires
                    self.tri_orient(t) == orient2d(
                        self.cx(t, 0), self.cy(t, 0), self.cx(t, 1),
                        self.cy(t, 1), self.cx(t, 2), self.cy(t, 2),
                    ),
                    self.cx(t, 0) == self.cx(t, 2),
                    self.cy(t, 0) == self.cy(t, 2),
            ;
        }
    }
}

} // verus!
