//! The Voronoi tessellation dual to a Delaunay triangulation: one cell per
//! generator, built by walking the one-ring of each generator and collecting
//! the circumcenters of its incident triangles.
//!
//! All Voronoi coordinates live on the grid refined by `VOR_SCALE`; cell
//! areas are kept doubled (in squared refined units) and exact.

use vstd::prelude::*;
use crate::DelaunayError;
use crate::delaunay2d::DelaunayTriangulation2D;
use crate::geometry::{CC_LIMIT, Triangle2D, Vertex2D, floor_div_i128, isqrt_u128, orient2d};
use crate::simulation_domain_2d::SimulationDomain2D;

verus! {

/// A face (line segment) between two cells of the Voronoi grid.
#[derive(Debug, Clone, Copy)]
pub struct VoronoiFace2D {
    /// Length of the segment, on the `VOR_SCALE` grid (rounded down).
    pub area: i64,
    /// Midpoint of the segment, on the `VOR_SCALE` grid (rounded down).
    pub midpoint: Vertex2D,
    /// The two cells the face separates, ordered [in, out].
    pub adjacent_cells: [i32; 2],
}

/// A cell of the Voronoi grid.
#[derive(Debug)]
pub struct VoronoiCell2D {
    /// Indices into the grid's vertex list: the CCW polygon boundary.
    pub vertices: Vec<i32>,
    /// Indices into the grid's face list, parallel to `vertices`.
    pub faces: Vec<i32>,
    /// Area-weighted centroid, on the `VOR_SCALE` grid.
    pub centroid: Vertex2D,
    /// Twice the polygon area, in squared `VOR_SCALE` units ("volume").
    pub volume_x2: i128,
    /// The generator the cell belongs to, in plain grid units.
    pub generator: Vertex2D,
}

impl Default for VoronoiCell2D {
    fn default() -> (r: VoronoiCell2D)
        ensures
            r.vertices@.len() == 0,
            r.faces@.len() == 0,
            r.centroid.x == 0 && r.centroid.y == 0,
            r.volume_x2 == 0,
            r.generator.x == 0 && r.generator.y == 0,
    {
        VoronoiCell2D {
            vertices: Vec::new(),
            faces: Vec::new(),
            centroid: Vertex2D { x: 0, y: 0 },
            volume_x2: 0,
            generator: Vertex2D { x: 0, y: 0 },
        }
    }
}

/// Twice the signed area of the wedge (g, a, b).
pub open spec fn wedge_x2(gx: int, gy: int, a: Vertex2D, b: Vertex2D) -> int {
    orient2d(gx, gy, a.x as int, a.y as int, b.x as int, b.y as int)
}

/// Numerator of the wedge's area-weighted centroid x: the doubled wedge area
/// times three times the wedge centroid's x.
pub open spec fn wedge_cx3(gx: int, gy: int, a: Vertex2D, b: Vertex2D) -> int {
    wedge_x2(gx, gy, a, b) * (gx + a.x + b.x)
}

pub open spec fn wedge_cy3(gx: int, gy: int, a: Vertex2D, b: Vertex2D) -> int {
    wedge_x2(gx, gy, a, b) * (gy + a.y + b.y)
}

/// The points a list of Voronoi vertex indices stands for.
pub open spec fn points_of(grid_vertices: Seq<Vertex2D>, idxs: Seq<i32>) -> Seq<Vertex2D> {
    Seq::new(idxs.len(), |k: int| grid_vertices[idxs[k] as int])
}

/// Sum of the wedges over consecutive pairs of the polygon (no wrap-around).
pub open spec fn open_wedge_sum(gx: int, gy: int, pts: Seq<Vertex2D>) -> int
    decreases pts.len(),
{
    if pts.len() <= 1 {
        0
    } else {
        open_wedge_sum(gx, gy, pts.drop_last()) + wedge_x2(
            gx, gy, pts[pts.len() - 2], pts[pts.len() - 1],
        )
    }
}

/// Sum of the wedges around the whole polygon, wrap-around pair included:
/// twice the polygon's area.
pub open spec fn closed_wedge_sum(gx: int, gy: int, pts: Seq<Vertex2D>) -> int {
    if pts.len() <= 1 {
        0
    } else {
        open_wedge_sum(gx, gy, pts) + wedge_x2(gx, gy, pts[pts.len() - 1], pts[0])
    }
}

pub open spec fn open_cx3_sum(gx: int, gy: int, pts: Seq<Vertex2D>) -> int
    decreases pts.len(),
{
    if pts.len() <= 1 {
        0
    } else {
        open_cx3_sum(gx, gy, pts.drop_last()) + wedge_cx3(
            gx, gy, pts[pts.len() - 2], pts[pts.len() - 1],
        )
    }
}

pub open spec fn closed_cx3_sum(gx: int, gy: int, pts: Seq<Vertex2D>) -> int {
    if pts.len() <= 1 {
        0
    } else {
        open_cx3_sum(gx, gy, pts) + wedge_cx3(gx, gy, pts[pts.len() - 1], pts[0])
    }
}

pub open spec fn open_cy3_sum(gx: int, gy: int, pts: Seq<Vertex2D>) -> int
    decreases pts.len(),
{
    if pts.len() <= 1 {
        0
    } else {
        open_cy3_sum(gx, gy, pts.drop_last()) + wedge_cy3(
            gx, gy, pts[pts.len() - 2], pts[pts.len() - 1],
        )
    }
}

pub open spec fn closed_cy3_sum(gx: int, gy: int, pts: Seq<Vertex2D>) -> int {
    if pts.len() <= 1 {
        0
    } else {
        open_cy3_sum(gx, gy, pts) + wedge_cy3(gx, gy, pts[pts.len() - 1], pts[0])
    }
}

/// Two base points give the same wedge-sum difference over the open chain:
/// the per-wedge base terms telescope down to the chain's endpoints.
proof fn lemma_open_wedge_sum_base_shift(
    gx: int, gy: int, hx: int, hy: int, pts: Seq<Vertex2D>,
)
    requires
        pts.len() >= 1,
    ensures
        open_wedge_sum(gx, gy, pts) - open_wedge_sum(hx, hy, pts) == (gx - hx) * (pts[0].y
            - pts[pts.len() - 1].y) + (gy - hy) * (pts[pts.len() - 1].x - pts[0].x),
    decreases pts.len(),
{
    if pts.len() == 1 {
        assert((gx - hx) * (pts[0].y - pts[pts.len() - 1].y) + (gy - hy) * (pts[pts.len() - 1].x
            - pts[0].x) == 0) by (nonlinear_arith)
            requires
                pts[0] == pts[pts.len() - 1],
        ;
    } else {
        let shorter = pts.drop_last();
        lemma_open_wedge_sum_base_shift(gx, gy, hx, hy, shorter);
        let a = pts[pts.len() - 2];
        let b = pts[pts.len() - 1];
        assert(wedge_x2(gx, gy, a, b) - wedge_x2(hx, hy, a, b) == (gx - hx) * (a.y as int
            - b.y as int) + (gy - hy) * (b.x as int - a.x as int)) by (nonlinear_arith);
        assert(shorter[0] == pts[0]);
        assert(shorter[shorter.len() - 1] == a);
        assert((gx - hx) * (pts[0].y - a.y as int) + (gx - hx) * (a.y as int - b.y as int) == (gx
            - hx) * (pts[0].y - b.y as int)) by (nonlinear_arith);
        assert((gy - hy) * (a.x as int - pts[0].x) + (gy - hy) * (b.x as int - a.x as int) == (gy
            - hy) * (b.x as int - pts[0].x)) by (nonlinear_arith);
    }
}

/// The doubled area a cell accumulates from its wedges does not depend on
/// the base point the wedges are anchored at: around a closed polygon the
/// base terms cancel, leaving the polygon's own doubled area.
pub proof fn lemma_wedge_sum_is_base_independent(
    gx: int, gy: int, hx: int, hy: int, pts: Seq<Vertex2D>,
)
    ensures
        closed_wedge_sum(gx, gy, pts) == closed_wedge_sum(hx, hy, pts),
{
    if pts.len() <= 1 {
    } else {
        lemma_open_wedge_sum_base_shift(gx, gy, hx, hy, pts);
        let a = pts[pts.len() - 1];
        let b = pts[0];
        assert(wedge_x2(gx, gy, a, b) - wedge_x2(hx, hy, a, b) == (gx - hx) * (a.y as int
            - b.y as int) + (gy - hy) * (b.x as int - a.x as int)) by (nonlinear_arith);
        assert((gx - hx) * (pts[0].y - a.y as int) + (gx - hx) * (a.y as int - b.y as int) == 0)
            by (nonlinear_arith)
            requires
                b == pts[0],
        ;
        assert((gy - hy) * (a.x as int - pts[0].x) + (gy - hy) * (b.x as int - a.x as int) == 0)
            by (nonlinear_arith)
            requires
                b == pts[0],
        ;
    }
}

/// The Voronoi grid: its own vertex, face and cell arenas.
#[derive(Debug)]
pub struct VoronoiGrid2D {
    /// Circumcenters of the source triangles, on the `VOR_SCALE` grid;
    /// Voronoi vertex i is the circumcenter of Delaunay triangle i + 3.
    pub vertices: Vec<Vertex2D>,
    pub faces: Vec<VoronoiFace2D>,
    pub cells: Vec<VoronoiCell2D>,
    pub is_periodic: bool,
    pub domain: SimulationDomain2D,
    /// Number of cells that belong to real generators.
    pub n_cells: usize,
}

impl VoronoiGrid2D {
    /// The polygon of cell `c`, as points.
    pub open spec fn cell_polygon(self, c: int) -> Seq<Vertex2D> {
        Seq::new(
            self.cells@[c].vertices@.len() as nat,
            |j: int| self.vertices@[self.cells@[c].vertices@[j] as int],
        )
    }

    /// Every vertex index and face index of cell `c` is in range.
    pub open spec fn cell_indices_ok(self, c: int) -> bool {
        &&& forall|j: int|
            0 <= j < self.cells@[c].vertices@.len() ==> 0 <= #[trigger] self.cells@[c].vertices@[j]
                < self.vertices@.len()
        &&& forall|j: int|
            0 <= j < self.cells@[c].faces@.len() ==> 0 <= #[trigger] self.cells@[c].faces@[j]
                < self.faces@.len()
    }

    /// The numeric summary of a complete cell: its doubled area is the wedge
    /// sum around its polygon, every wedge is non-negative, and its centroid
    /// is the (rounded-down) area-weighted wedge centroid.
    pub open spec fn cell_full(self, c: int) -> bool {
        let cell = self.cells@[c];
        let gx = cell.generator.x * 1024;
        let gy = cell.generator.y * 1024;
        let pts = self.cell_polygon(c);
        &&& cell.volume_x2 == closed_wedge_sum(gx, gy, pts)
        &&& cell.volume_x2 > 0
        &&& forall|j: int|
            0 <= j < pts.len() - 1 ==> #[trigger] wedge_x2(gx, gy, pts[j], pts[j + 1]) >= 0
        &&& wedge_x2(gx, gy, pts[pts.len() - 1], pts[0]) >= 0
        &&& cell.centroid.x == closed_cx3_sum(gx, gy, pts) / (3 * cell.volume_x2)
        &&& cell.centroid.y == closed_cy3_sum(gx, gy, pts) / (3 * cell.volume_x2)
    }

    /// What holds of every cell: indices in range, and either a complete
    /// cell with faces parallel to its polygon, or a face-less cell (a ghost
    /// generator's polygon, or an omitted boundary cell) with no area.
    pub open spec fn cell_ok(self, c: int) -> bool {
        let cell = self.cells@[c];
        &&& self.cell_indices_ok(c)
        &&& (cell.faces@.len() == cell.vertices@.len() && cell.vertices@.len() > 0) ==> self.cell_full(c)
        &&& (cell.faces@.len() == 0 || cell.faces@.len() == cell.vertices@.len())
        &&& cell.faces@.len() == 0 ==> cell.volume_x2 == 0
        &&& cell.centroid.in_bounds(CC_LIMIT as int)
    }

    /// Well-formedness of the whole grid.
    pub open spec fn grid_ok(self) -> bool {
        &&& forall|i: int|
            0 <= i < self.vertices@.len() ==> (#[trigger] self.vertices@[i]).in_bounds(
                CC_LIMIT as int,
            )
        &&& forall|c: int| 0 <= c < self.cells@.len() ==> #[trigger] self.cell_ok(c)
        &&& self.n_cells <= self.cells@.len()
        &&& forall|c: int|
            0 <= c < self.cells@.len() ==> (#[trigger] self.cells@[c]).generator.in_bounds(
                crate::geometry::COORD_LIMIT as int,
            )
    }

    pub fn with_capacity(n_cells: usize, n_vertices: usize) -> (r: VoronoiGrid2D)
        requires
            n_vertices <= 0x7fffffff,
        ensures
            r.vertices@.len() == 0,
            r.faces@.len() == 0,
            r.cells@.len() == 0,
            !r.is_periodic,
            r.n_cells == 0,
            r.grid_ok(),
    {
        VoronoiGrid2D {
            vertices: Vec::with_capacity(n_vertices),
            faces: Vec::with_capacity(2 * (n_vertices / 2)),
            cells: Vec::with_capacity(n_cells),
            is_periodic: false,
            domain: SimulationDomain2D::new([0, 0], [1, 1]),
            n_cells: 0,
        }
    }

    /// Builds the cell of one generator: walks its one-ring, emits the ring
    /// triangles' circumcenters as the cell polygon and, for a real
    /// generator, creates the face towards each ring neighbour and
    /// accumulates the cell's area and area-weighted centroid from the
    /// non-negative wedges. A ring that touches the hull leaves an empty
    /// (omitted) cell.
    fn add_cell_from_delaunay_generator(
        &mut self,
        generator_idx: usize,
        triangulation: &DelaunayTriangulation2D,
    ) -> (r: Result<(), DelaunayError>)
        requires
            old(self).grid_ok(),
            triangulation.wf(),
            3 <= generator_idx < triangulation.nv(),
            old(self).vertices@.len() == triangulation.nt() - 3,
            old(self).cells@.len() == generator_idx - 3,
        ensures
            final(self).grid_ok(),
            final(self).vertices == old(self).vertices,
            final(self).is_periodic == old(self).is_periodic,
            final(self).domain == old(self).domain,
            final(self).n_cells == old(self).n_cells,
            old(self).faces@.len() <= final(self).faces@.len(),
            forall|j: int|
                0 <= j < old(self).faces@.len() ==> #[trigger] final(self).faces@[j] == old(
                    self,
                ).faces@[j],
            forall|c: int|
                0 <= c < old(self).cells@.len() ==> #[trigger] final(self).cells@[c] == old(
                    self,
                ).cells@[c],
            r is Ok ==> {
                &&& final(self).cells@.len() == old(self).cells@.len() + 1
                &&& final(self).cells@[old(self).cells@.len() as int].generator.x
                    == triangulation.vert(generator_idx as int).x
                &&& final(self).cells@[old(self).cells@.len() as int].generator.y
                    == triangulation.vert(generator_idx as int).y
            },
            // a non-empty cell polygon lists, in order, the triangles of a
            // closed counter-clockwise one-ring of its generator (each
            // polygon corner is that triangle's circumcenter index)
            r is Ok && final(self).cells@[old(self).cells@.len() as int].vertices@.len() > 0
                ==> exists|ts2: Seq<i32>, ss2: Seq<i8>|
                {
                    &&& #[trigger] triangulation.generator_ring(generator_idx as int, ts2, ss2)
                    &&& final(self).cells@[old(self).cells@.len() as int].vertices@.len()
                        == ts2.len()
                    &&& forall|k: int|
                        0 <= k < ts2.len() ==> final(self).cells@[old(
                            self,
                        ).cells@.len() as int].vertices@[k] == #[trigger] ts2[k] - 3
                },
            r is Err ==> final(self).cells == old(self).cells,
            (r matches Err(e) ==> e == DelaunayError::Invariant || e
                == DelaunayError::QueueOverflow),
    {
        let gen = triangulation.vertices[generator_idx];
        proof {
            assert(DelaunayTriangulation2D::vertex_ok(
                triangulation.vertices@[generator_idx as int],
                triangulation.nt(),
            ));
        }
        let cell_idx = self.cells.len() as i32;
        let gvx: i64 = gen.x * 1024;
        let gvy: i64 = gen.y * 1024;
        let gv = Vertex2D { x: gvx, y: gvy };
        let is_real = generator_idx < 3 + triangulation.n_vertices;

        let rs = match triangulation.ring_with_slots(generator_idx) {
            Result::Ok(rs) => rs,
            Result::Err(e) => {
                if matches!(e, DelaunayError::OutsideDomain) {
                    // The ring leaves the hull: emit the omitted cell.
                    let cell = VoronoiCell2D {
                        vertices: Vec::new(),
                        faces: Vec::new(),
                        centroid: Vertex2D { x: 0, y: 0 },
                        volume_x2: 0,
                        generator: Vertex2D { x: gen.x, y: gen.y },
                    };
                    self.cells.push(cell);
                    proof {
                        assert forall|c: int| 0 <= c < self.cells@.len() implies
                            #[trigger] self.cell_ok(c) by {
                            if c < old(self).cells@.len() {
                                assert(old(self).cell_ok(c));
                                assert(self.cell_polygon(c) =~= old(self).cell_polygon(c));
                            } else {
                                assert(self.cells@[c].vertices@.len() == 0);
                                assert(self.cells@[c].faces@.len() == 0);
                            }
                        }
                    }
                    return Ok(());
                }
                return Err(e);
            },
        };
        let ts = rs.0;
        let ss = rs.1;
        let n = ts.len();

        if self.faces.len() >= 0x40000000 {
            return Err(DelaunayError::QueueOverflow);
        }
        let mut cell_verts: Vec<i32> = Vec::new();
        let mut cell_faces: Vec<i32> = Vec::new();
        let mut vol: i128 = 0;
        let mut cx3: i128 = 0;
        let mut cy3: i128 = 0;
        let mut j: usize = 0;
        while j < n
            invariant
                self.grid_ok(),
                self.vertices == old(self).vertices,
                self.cells == old(self).cells,
                self.is_periodic == old(self).is_periodic,
                self.domain == old(self).domain,
                self.n_cells == old(self).n_cells,
                old(self).faces@.len() <= self.faces@.len() <= 0x7fffffff,
                forall|j2: int|
                    0 <= j2 < old(self).faces@.len() ==> #[trigger] self.faces@[j2] == old(
                        self,
                    ).faces@[j2],
                triangulation.wf(),
                3 <= generator_idx < triangulation.nv(),
                self.vertices@.len() == triangulation.nt() - 3,
                self.cells@.len() == generator_idx - 3,
                cell_idx == self.cells@.len(),
                gvx == gen.x * 1024,
                gvy == gen.y * 1024,
                gv.x == gvx && gv.y == gvy,
                gen == triangulation.vert(generator_idx as int),
                -0x40000000 <= gvx <= 0x40000000,
                -0x40000000 <= gvy <= 0x40000000,
                is_real == (generator_idx < 3 + triangulation.n_vertices),
                // the ring
                triangulation.generator_ring(generator_idx as int, ts@, ss@),
                n == ts@.len(),
                n == ss@.len(),
                2 <= n <= 16777217,
                forall|k: int| 0 <= k < ts@.len() ==> 3 <= #[trigger] ts@[k] < triangulation.nt(),
                forall|k: int| 0 <= k < ss@.len() ==> 0 <= #[trigger] ss@[k] < 3,
                // the polygon so far
                j <= n,
                cell_verts@.len() == j,
                forall|k: int|
                    0 <= k < j ==> #[trigger] cell_verts@[k] == ts@[k] - 3,
                forall|k: int|
                    0 <= k < j ==> 0 <= #[trigger] cell_verts@[k] < self.vertices@.len(),
                // faces parallel to the polygon for a real generator
                is_real ==> cell_faces@.len() == j,
                !is_real ==> cell_faces@.len() == 0,
                forall|k: int|
                    0 <= k < cell_faces@.len() ==> 0 <= #[trigger] cell_faces@[k]
                        < self.faces@.len(),
                !is_real ==> vol == 0 && cx3 == 0 && cy3 == 0,
                // the accumulators against the wedge sums
                0 <= vol <= (j as int) * 0x80000000000000000,
                -((j as int) * 0x20000000000000000000000000) <= cx3 <= (j as int)
                    * 0x20000000000000000000000000,
                -((j as int) * 0x20000000000000000000000000) <= cy3 <= (j as int)
                    * 0x20000000000000000000000000,
                is_real ==> vol == (if j == 0 {
                    0int
                } else {
                    open_wedge_sum(
                        gvx as int,
                        gvy as int,
                        points_of(self.vertices@, cell_verts@),
                    ) + wedge_x2(
                        gvx as int,
                        gvy as int,
                        points_of(self.vertices@, cell_verts@)[j - 1],
                        self.vertices@[(if j == n {
                            ts@[0]
                        } else {
                            ts@[j as int]
                        }) - 3],
                    )
                }),
                is_real ==> cx3 == (if j == 0 {
                    0int
                } else {
                    open_cx3_sum(
                        gvx as int,
                        gvy as int,
                        points_of(self.vertices@, cell_verts@),
                    ) + wedge_cx3(
                        gvx as int,
                        gvy as int,
                        points_of(self.vertices@, cell_verts@)[j - 1],
                        self.vertices@[(if j == n {
                            ts@[0]
                        } else {
                            ts@[j as int]
                        }) - 3],
                    )
                }),
                is_real ==> cy3 == (if j == 0 {
                    0int
                } else {
                    open_cy3_sum(
                        gvx as int,
                        gvy as int,
                        points_of(self.vertices@, cell_verts@),
                    ) + wedge_cy3(
                        gvx as int,
                        gvy as int,
                        points_of(self.vertices@, cell_verts@)[j - 1],
                        self.vertices@[(if j == n {
                            ts@[0]
                        } else {
                            ts@[j as int]
                        }) - 3],
                    )
                }),
                is_real ==> forall|k: int|
                    0 <= k < j - 1 ==> #[trigger] wedge_x2(
                        gvx as int,
                        gvy as int,
                        points_of(self.vertices@, cell_verts@)[k],
                        points_of(self.vertices@, cell_verts@)[k + 1],
                    ) >= 0,
                is_real && j > 0 ==> wedge_x2(
                    gvx as int,
                    gvy as int,
                    points_of(self.vertices@, cell_verts@)[j - 1],
                    self.vertices@[(if j == n {
                        ts@[0]
                    } else {
                        ts@[j as int]
                    }) - 3],
                ) >= 0,
            decreases n - j,
        {
            let t = ts[j];
            let next_t = if j + 1 < n {
                ts[j + 1]
            } else {
                ts[0]
            };
            if next_t == t {
                return Err(DelaunayError::Invariant);
            }
            let current_vv = t - 3;
            let next_vv = next_t - 3;
            let ghost pts_pre = points_of(self.vertices@, cell_verts@);
            cell_verts.push(current_vv);
            let ghost pts = points_of(self.vertices@, cell_verts@);
            let a = self.vertices[current_vv as usize];
            let b = self.vertices[next_vv as usize];
            proof {
                assert(pts =~= pts_pre.push(a));
                assert(pts.drop_last() =~= pts_pre);
                assert(a.in_bounds(CC_LIMIT as int));
                assert(b.in_bounds(CC_LIMIT as int));
            }
            if is_real {
                proof {
                    assert(triangulation.tri(t as int).valid(
                        triangulation.nv(),
                        triangulation.nt(),
                    ));
                }
                let rec = triangulation.triangles[t as usize];
                let s = ss[j];
                let neighbour_gen = rec.vertices[((s as usize) + 2) % 3];
                if neighbour_gen == generator_idx as i32 {
                    return Err(DelaunayError::Invariant);
                }
                if self.faces.len() >= 0x40000000 {
                    return Err(DelaunayError::QueueOverflow);
                }
                let fidx = match self.get_or_create_face(
                    current_vv,
                    next_vv,
                    cell_idx,
                    neighbour_gen - 3,
                ) {
                    Result::Ok(f) => f,
                    Result::Err(e) => {
                        return Err(e);
                    },
                };
                cell_faces.push(fidx);

                // the signed wedge of the generator and two consecutive
                // polygon corners
                let wedge = Triangle2D::new(gv, a, b);
                let w = wedge.area_x2();
                if w < 0 {
                    return Err(DelaunayError::Invariant);
                }
                proof {
                    crate::geometry::lemma_mul_abs_bound(
                        gvx as int - b.x as int,
                        a.y as int - b.y as int,
                        0x200000000,
                        0x200000000,
                    );
                    crate::geometry::lemma_mul_abs_bound(
                        gvy as int - b.y as int,
                        a.x as int - b.x as int,
                        0x200000000,
                        0x200000000,
                    );
                    assert(w == wedge_x2(gvx as int, gvy as int, a, b));
                    crate::geometry::lemma_mul_abs_bound(
                        w as int,
                        gvx as int + a.x as int + b.x as int,
                        0x80000000000000000,
                        0x300000000,
                    );
                    crate::geometry::lemma_mul_abs_bound(
                        w as int,
                        gvy as int + a.y as int + b.y as int,
                        0x80000000000000000,
                        0x300000000,
                    );
                }
                let sx = gvx as i128 + a.x as i128 + b.x as i128;
                let sy = gvy as i128 + a.y as i128 + b.y as i128;
                vol = vol + w;
                cx3 = cx3 + w * sx;
                cy3 = cy3 + w * sy;
            }
            j = j + 1;
            proof {
                if is_real {
                    if j > 1 {
                        assert(open_wedge_sum(gvx as int, gvy as int, pts) == open_wedge_sum(
                            gvx as int,
                            gvy as int,
                            pts_pre,
                        ) + wedge_x2(gvx as int, gvy as int, pts[j - 2], pts[j - 1]));
                        assert(open_cx3_sum(gvx as int, gvy as int, pts) == open_cx3_sum(
                            gvx as int,
                            gvy as int,
                            pts_pre,
                        ) + wedge_cx3(gvx as int, gvy as int, pts[j - 2], pts[j - 1]));
                        assert(open_cy3_sum(gvx as int, gvy as int, pts) == open_cy3_sum(
                            gvx as int,
                            gvy as int,
                            pts_pre,
                        ) + wedge_cy3(gvx as int, gvy as int, pts[j - 2], pts[j - 1]));
                    }
                    assert(pts[j - 1] == a);
                    assert(b == self.vertices@[(if j == n {
                        ts@[0]
                    } else {
                        ts@[j as int]
                    }) - 3]);
                    assert forall|k: int|
                        0 <= k < j - 1 implies #[trigger] wedge_x2(
                        gvx as int,
                        gvy as int,
                        pts[k],
                        pts[k + 1],
                    ) >= 0 by {
                        if k < j - 2 {
                            assert(pts[k] == pts_pre[k]);
                            assert(pts[k + 1] == pts_pre[k + 1]);
                        }
                    }
                }
            }
        }

        if is_real {
            if vol <= 0 {
                return Err(DelaunayError::Invariant);
            }
            let cenx = floor_div_i128(cx3, 3 * vol);
            let ceny = floor_div_i128(cy3, 3 * vol);
            if cenx < -(CC_LIMIT as i128) || cenx > CC_LIMIT as i128 || ceny < -(CC_LIMIT as i128)
                || ceny > CC_LIMIT as i128 {
                return Err(DelaunayError::Invariant);
            }
            let cell = VoronoiCell2D {
                vertices: cell_verts,
                faces: cell_faces,
                centroid: Vertex2D { x: cenx as i64, y: ceny as i64 },
                volume_x2: vol,
                generator: Vertex2D { x: gen.x, y: gen.y },
            };
            self.cells.push(cell);
            proof {
                let ci = old(self).cells@.len() as int;
                assert(self.cells@[ci].vertices@.len() == ts@.len());
                assert(triangulation.generator_ring(generator_idx as int, ts@, ss@));
                assert forall|k: int|
                    0 <= k < ts@.len() implies self.cells@[ci].vertices@[k] == #[trigger] ts@[k]
                    - 3 by {}
            }
            proof {
                let c = self.cells@.len() - 1;
                assert(self.cell_polygon(c) =~= points_of(self.vertices@, self.cells@[c].vertices@));
                assert forall|c2: int| 0 <= c2 < self.cells@.len() implies #[trigger] self.cell_ok(
                    c2,
                ) by {
                    if c2 < old(self).cells@.len() {
                        assert(old(self).cell_ok(c2));
                        assert(self.cell_polygon(c2) =~= old(self).cell_polygon(c2));
                    } else {
                        assert(self.cell_full(c2));
                    }
                }
            }
            Ok(())
        } else {
            let cell = VoronoiCell2D {
                vertices: cell_verts,
                faces: Vec::new(),
                centroid: Vertex2D { x: 0, y: 0 },
                volume_x2: 0,
                generator: Vertex2D { x: gen.x, y: gen.y },
            };
            self.cells.push(cell);
            proof {
                let ci = old(self).cells@.len() as int;
                assert(self.cells@[ci].vertices@.len() == ts@.len());
                assert(triangulation.generator_ring(generator_idx as int, ts@, ss@));
                assert forall|k: int|
                    0 <= k < ts@.len() implies self.cells@[ci].vertices@[k] == #[trigger] ts@[k]
                    - 3 by {}
            }
            proof {
                assert forall|c2: int| 0 <= c2 < self.cells@.len() implies #[trigger] self.cell_ok(
                    c2,
                ) by {
                    if c2 < old(self).cells@.len() {
                        assert(old(self).cell_ok(c2));
                        assert(self.cell_polygon(c2) =~= old(self).cell_polygon(c2));
                    } else {
                        assert(self.cells@[c2].faces@.len() == 0);
                    }
                }
            }
            Ok(())
        }
    }

    /// Finds the face of the earlier-built cell `cell_out_idx` whose slot in
    /// the parallel lists corresponds to the polygon vertex `vertex_to_idx`,
    /// and checks that it already names `cell_in_idx` as its outer cell.
    fn find_face_in(&self, cell_out_idx: i32, vertex_to_idx: i32, cell_in_idx: i32) -> (r: Result<
        i32,
        DelaunayError,
    >)
        requires
            self.grid_ok(),
            0 <= cell_out_idx < self.cells@.len(),
        ensures
            r matches Ok(fi) ==> {
                &&& 0 <= fi < self.faces@.len()
                &&& exists|j: int|
                    0 <= j < self.cells@[cell_out_idx as int].vertices@.len()
                        && self.cells@[cell_out_idx as int].vertices@[j] == vertex_to_idx
                        && #[trigger] self.cells@[cell_out_idx as int].faces@[j] == fi
                &&& self.faces@[fi as int].adjacent_cells[1] == cell_in_idx
            },
            (r matches Err(e) ==> e == DelaunayError::Invariant),
    {
        let m = self.cells[cell_out_idx as usize].vertices.len();
        let mut j: usize = 0;
        while j < m
            invariant
                self.grid_ok(),
                0 <= cell_out_idx < self.cells@.len(),
                m == self.cells@[cell_out_idx as int].vertices@.len(),
                j <= m,
            decreases m - j,
        {
            if self.cells[cell_out_idx as usize].vertices[j] == vertex_to_idx {
                let cfaces_len = self.cells[cell_out_idx as usize].faces.len();
                if j >= cfaces_len {
                    return Err(DelaunayError::Invariant);
                }
                let face_idx = self.cells[cell_out_idx as usize].faces[j];
                proof {
                    assert(self.cell_ok(cell_out_idx as int));
                    assert(0 <= self.cells@[cell_out_idx as int].faces@[j as int]
                        < self.faces@.len());
                }
                if self.faces[face_idx as usize].adjacent_cells[1] != cell_in_idx {
                    return Err(DelaunayError::Invariant);
                }
                return Ok(face_idx);
            }
            j = j + 1;
        }
        Err(DelaunayError::Invariant)
    }

    /// Looks up the face between `cell_in` and `cell_out` if the partner
    /// cell was built earlier, and creates it otherwise, with its length (on
    /// the refined grid, rounded down), its midpoint, and its ordered pair
    /// of adjacent cells.
    fn get_or_create_face(
        &mut self,
        vertex_from_idx: i32,
        vertex_to_idx: i32,
        cell_in_idx: i32,
        cell_out_idx: i32,
    ) -> (r: Result<i32, DelaunayError>)
        requires
            old(self).grid_ok(),
            0 <= vertex_from_idx < old(self).vertices@.len(),
            0 <= vertex_to_idx < old(self).vertices@.len(),
            vertex_from_idx != vertex_to_idx,
            cell_in_idx != cell_out_idx,
            cell_out_idx < cell_in_idx && cell_out_idx > 2 ==> 0 <= cell_out_idx < old(
                self,
            ).cells@.len(),
            old(self).faces@.len() + 1 <= 0x7fffffff,
        ensures
            final(self).grid_ok(),
            final(self).vertices == old(self).vertices,
            final(self).cells == old(self).cells,
            final(self).is_periodic == old(self).is_periodic,
            final(self).domain == old(self).domain,
            final(self).n_cells == old(self).n_cells,
            old(self).faces@.len() <= final(self).faces@.len() <= old(self).faces@.len() + 1,
            forall|j: int|
                0 <= j < old(self).faces@.len() ==> #[trigger] final(self).faces@[j] == old(
                    self,
                ).faces@[j],
            !(cell_out_idx < cell_in_idx && cell_out_idx > 2) ==> r is Ok,
            (r matches Err(e) ==> e == DelaunayError::Invariant),
            r matches Ok(fi) ==> {
                &&& 0 <= fi < final(self).faces@.len()
                &&& if cell_out_idx < cell_in_idx && cell_out_idx > 2 {
                    &&& final(self).faces == old(self).faces
                    &&& exists|j: int|
                        0 <= j < old(self).cells@[cell_out_idx as int].vertices@.len()
                            && old(self).cells@[cell_out_idx as int].vertices@[j] == vertex_to_idx
                            && #[trigger] old(self).cells@[cell_out_idx as int].faces@[j] == fi
                    &&& final(self).faces@[fi as int].adjacent_cells[1] == cell_in_idx
                } else {
                    let a = old(self).vertices@[vertex_from_idx as int];
                    let b = old(self).vertices@[vertex_to_idx as int];
                    let f = final(self).faces@[fi as int];
                    let dx = b.x - a.x;
                    let dy = b.y - a.y;
                    &&& fi == old(self).faces@.len()
                    &&& final(self).faces@ == old(self).faces@.push(f)
                    &&& f.area >= 0
                    &&& f.area * f.area <= dx * dx + dy * dy
                    &&& dx * dx + dy * dy < (f.area + 1) * (f.area + 1)
                    &&& f.midpoint.x == (a.x + b.x) / 2
                    &&& f.midpoint.y == (a.y + b.y) / 2
                    &&& f.adjacent_cells[0] == cell_in_idx
                    &&& f.adjacent_cells[1] == cell_out_idx
                }
            },
    {
        if cell_out_idx < cell_in_idx && cell_out_idx > 2 {
            self.find_face_in(cell_out_idx, vertex_to_idx, cell_in_idx)
        } else {
            // Create a new face and return its index.
            let a = self.vertices[vertex_from_idx as usize];
            let b = self.vertices[vertex_to_idx as usize];
            proof {
                assert(a.in_bounds(CC_LIMIT as int));
                assert(b.in_bounds(CC_LIMIT as int));
                let dx = b.x as int - a.x as int;
                let dy = b.y as int - a.y as int;
                crate::geometry::lemma_mul_abs_bound(dx, dx, 2 * CC_LIMIT as int, 2 * CC_LIMIT as int);
                crate::geometry::lemma_mul_abs_bound(dy, dy, 2 * CC_LIMIT as int, 2 * CC_LIMIT as int);
                assert(dx * dx >= 0) by (nonlinear_arith);
                assert(dy * dy >= 0) by (nonlinear_arith);
            }
            let dx = b.x as i128 - a.x as i128;
            let dy = b.y as i128 - a.y as i128;
            let d2 = dx * dx + dy * dy;
            let len = isqrt_u128(d2 as u128);
            proof {
                assert(len < 0x400000000) by (nonlinear_arith)
                    requires
                        len * len <= d2 as u128,
                        0 <= d2 <= 0x80000000000000000,
                ;
            }
            let midx = floor_div_i128(a.x as i128 + b.x as i128, 2);
            let midy = floor_div_i128(a.y as i128 + b.y as i128, 2);
            let face_idx = self.faces.len() as i32;
            let face = VoronoiFace2D {
                area: len as i64,
                midpoint: Vertex2D { x: midx as i64, y: midy as i64 },
                adjacent_cells: [cell_in_idx, cell_out_idx],
            };
            self.faces.push(face);
            proof {
                assert(face.adjacent_cells[0] == cell_in_idx && face.adjacent_cells[1]
                    == cell_out_idx) by {
                    assert(face.adjacent_cells@ =~= seq![cell_in_idx, cell_out_idx]);
                }
                assert forall|c: int| 0 <= c < self.cells@.len() implies #[trigger] self.cell_ok(
                    c,
                ) by {
                    assert(old(self).cell_ok(c));
                    assert(self.cell_polygon(c) =~= old(self).cell_polygon(c));
                }
            }
            Ok(face_idx)
        }
    }

    /// Builds the Voronoi dual of a finished triangulation: one Voronoi
    /// vertex per non-dummy triangle (its circumcenter), and one cell per
    /// generator, real generators first.
    pub fn from_delaunay_triangulation(triangulation: &DelaunayTriangulation2D) -> (r: Result<
        VoronoiGrid2D,
        DelaunayError,
    >)
        requires
            triangulation.wf(),
        ensures
            (r matches Ok(g) ==> {
                &&& g.grid_ok()
                &&& g.vertices@.len() == triangulation.nt() - 3
                &&& forall|t: int|
                    3 <= t < triangulation.nt() ==> {
                        &&& (#[trigger] g.vertices@[t - 3]).x == crate::geometry::cc_scaled_x(
                            triangulation.cx(t, 0), triangulation.cy(t, 0), triangulation.cx(t, 1),
                            triangulation.cy(t, 1), triangulation.cx(t, 2), triangulation.cy(t, 2),
                        )
                        &&& g.vertices@[t - 3].y == crate::geometry::cc_scaled_y(
                            triangulation.cx(t, 0), triangulation.cy(t, 0), triangulation.cx(t, 1),
                            triangulation.cy(t, 1), triangulation.cx(t, 2), triangulation.cy(t, 2),
                        )
                    }
                &&& g.cells@.len() == triangulation.n_vertices
                &&& forall|c: int|
                    0 <= c < g.cells@.len() ==> {
                        &&& (#[trigger] g.cells@[c]).generator.x == triangulation.vert(c + 3).x
                        &&& g.cells@[c].generator.y == triangulation.vert(c + 3).y
                    }
                &&& g.n_cells == triangulation.n_vertices
                &&& g.is_periodic == triangulation.is_periodic
                &&& g.domain == triangulation.domain
                &&& forall|t: int|
                    3 <= t < triangulation.nt()
                        ==> #[trigger] triangulation.circumcenter_in_box(t)
                // every non-empty cell polygon lists a closed CCW one-ring
                // of its generator, corner by circumcenter index
                &&& forall|c: int|
                    0 <= c < g.cells@.len() && (#[trigger] g.cells@[c]).vertices@.len() > 0
                        ==> exists|ts2: Seq<i32>, ss2: Seq<i8>|
                        {
                            &&& #[trigger] triangulation.generator_ring(c + 3, ts2, ss2)
                            &&& g.cells@[c].vertices@.len() == ts2.len()
                            &&& forall|k: int|
                                0 <= k < ts2.len() ==> g.cells@[c].vertices@[k] == #[trigger] ts2[k]
                                    - 3
                        }
            }),
            // the only failures are a circumcenter that leaves the box or a
            // broken mesh (`Invariant`), and the face-count safety bound
            // (`QueueOverflow`)
            (r matches Err(e) ==> e == DelaunayError::Invariant || e
                == DelaunayError::QueueOverflow),
    {
        let mut grid = VoronoiGrid2D::with_capacity(
            triangulation.vertices.len() - 3,
            triangulation.triangles.len() - 3,
        );
        grid.is_periodic = triangulation.is_periodic;
        grid.domain = triangulation.domain;

        // Step A: one Voronoi vertex per non-dummy triangle.
        let nt = triangulation.triangles.len();
        let mut t: usize = 3;
        while t < nt
            invariant
                triangulation.wf(),
                nt == triangulation.nt(),
                3 <= t <= nt,
                grid.vertices@.len() == t - 3,
                grid.faces@.len() == 0,
                grid.cells@.len() == 0,
                grid.n_cells == 0,
                grid.is_periodic == triangulation.is_periodic,
                grid.domain == triangulation.domain,
                grid.grid_ok(),
                forall|t2: int| 3 <= t2 < t ==> #[trigger] triangulation.circumcenter_in_box(t2),
                forall|t2: int|
                    3 <= t2 < t ==> {
                        &&& (#[trigger] grid.vertices@[t2 - 3]).x == crate::geometry::cc_scaled_x(
                            triangulation.cx(t2, 0), triangulation.cy(t2, 0),
                            triangulation.cx(t2, 1), triangulation.cy(t2, 1),
                            triangulation.cx(t2, 2), triangulation.cy(t2, 2),
                        )
                        &&& grid.vertices@[t2 - 3].y == crate::geometry::cc_scaled_y(
                            triangulation.cx(t2, 0), triangulation.cy(t2, 0),
                            triangulation.cx(t2, 1), triangulation.cy(t2, 1),
                            triangulation.cx(t2, 2), triangulation.cy(t2, 2),
                        )
                    },
            decreases nt - t,
        {
            let cc = match triangulation.triangle_circumcenter(t) {
                Result::Ok(v) => v,
                Result::Err(e) => {
                    return Err(e);
                },
            };
            let ghost vpre = grid.vertices@;
            grid.vertices.push(cc);
            proof {
                assert forall|t2: int| 3 <= t2 < t + 1 implies {
                    &&& (#[trigger] grid.vertices@[t2 - 3]).x == crate::geometry::cc_scaled_x(
                        triangulation.cx(t2, 0), triangulation.cy(t2, 0), triangulation.cx(t2, 1),
                        triangulation.cy(t2, 1), triangulation.cx(t2, 2), triangulation.cy(t2, 2),
                    )
                    &&& grid.vertices@[t2 - 3].y == crate::geometry::cc_scaled_y(
                        triangulation.cx(t2, 0), triangulation.cy(t2, 0), triangulation.cx(t2, 1),
                        triangulation.cy(t2, 1), triangulation.cx(t2, 2), triangulation.cy(t2, 2),
                    )
                } by {
                    if t2 < t {
                        assert(grid.vertices@[t2 - 3] == vpre[t2 - 3]);
                    }
                }
                assert forall|i: int| 0 <= i < grid.vertices@.len() implies (
                #[trigger] grid.vertices@[i]).in_bounds(CC_LIMIT as int) by {
                    if i < vpre.len() {
                        assert(grid.vertices@[i] == vpre[i]);
                    }
                }
            }
            t = t + 1;
        }

        // Step B: walk each real generator's one-ring and emit its cell;
        // mirror generators shape the rings but yield no cell of their own.
        let nv = 3 + triangulation.n_vertices;
        let mut gi: usize = 3;
        while gi < nv
            invariant
                triangulation.wf(),
                nt == triangulation.nt(),
                nv == 3 + triangulation.n_vertices,
                nv <= triangulation.nv(),
                3 <= gi <= nv,
                grid.vertices@.len() == nt - 3,
                grid.cells@.len() == gi - 3,
                grid.n_cells == 0,
                grid.is_periodic == triangulation.is_periodic,
                grid.domain == triangulation.domain,
                grid.grid_ok(),
                forall|t2: int| 3 <= t2 < nt ==> #[trigger] triangulation.circumcenter_in_box(t2),
                forall|t2: int|
                    3 <= t2 < nt ==> {
                        &&& (#[trigger] grid.vertices@[t2 - 3]).x == crate::geometry::cc_scaled_x(
                            triangulation.cx(t2, 0), triangulation.cy(t2, 0),
                            triangulation.cx(t2, 1), triangulation.cy(t2, 1),
                            triangulation.cx(t2, 2), triangulation.cy(t2, 2),
                        )
                        &&& grid.vertices@[t2 - 3].y == crate::geometry::cc_scaled_y(
                            triangulation.cx(t2, 0), triangulation.cy(t2, 0),
                            triangulation.cx(t2, 1), triangulation.cy(t2, 1),
                            triangulation.cx(t2, 2), triangulation.cy(t2, 2),
                        )
                    },
                forall|c: int|
                    0 <= c < grid.cells@.len() ==> {
                        &&& (#[trigger] grid.cells@[c]).generator.x == triangulation.vert(c + 3).x
                        &&& grid.cells@[c].generator.y == triangulation.vert(c + 3).y
                    },
                forall|c: int|
                    0 <= c < grid.cells@.len() && (#[trigger] grid.cells@[c]).vertices@.len() > 0
                        ==> exists|ts2: Seq<i32>, ss2: Seq<i8>|
                        {
                            &&& #[trigger] triangulation.generator_ring(c + 3, ts2, ss2)
                            &&& grid.cells@[c].vertices@.len() == ts2.len()
                            &&& forall|k: int|
                                0 <= k < ts2.len() ==> grid.cells@[c].vertices@[k]
                                    == #[trigger] ts2[k] - 3
                        },
            decreases nv - gi,
        {
            let ghost gpre = grid;
            match grid.add_cell_from_delaunay_generator(gi, triangulation) {
                Result::Ok(_) => {},
                Result::Err(e) => {
                    return Err(e);
                },
            }
            proof {
                assert forall|c: int| 0 <= c < grid.cells@.len() implies {
                    &&& (#[trigger] grid.cells@[c]).generator.x == triangulation.vert(c + 3).x
                    &&& grid.cells@[c].generator.y == triangulation.vert(c + 3).y
                } by {
                    if c < gpre.cells@.len() {
                        assert(grid.cells@[c] == gpre.cells@[c]);
                    }
                }
                assert forall|c: int|
                    0 <= c < grid.cells@.len() && (#[trigger] grid.cells@[c]).vertices@.len()
                        > 0 implies exists|ts2: Seq<i32>, ss2: Seq<i8>|
                    {
                        &&& #[trigger] triangulation.generator_ring(c + 3, ts2, ss2)
                        &&& grid.cells@[c].vertices@.len() == ts2.len()
                        &&& forall|k: int|
                            0 <= k < ts2.len() ==> grid.cells@[c].vertices@[k] == #[trigger] ts2[k]
                                - 3
                    } by {
                    if c < gpre.cells@.len() {
                        assert(grid.cells@[c] == gpre.cells@[c]);
                    } else {
                        assert(c == gi as int - 3);
                    }
                }
            }
            gi = gi + 1;
        }
        let ghost gfin = grid;
        grid.n_cells = triangulation.n_vertices;
        proof {
            assert forall|c: int| 0 <= c < grid.cells@.len() implies #[trigger] grid.cell_ok(
                c,
            ) by {
                assert(gfin.cell_ok(c));
                assert(grid.cell_polygon(c) =~= gfin.cell_polygon(c));
            }
            assert forall|i: int| 0 <= i < grid.vertices@.len() implies (
            #[trigger] grid.vertices@[i]).in_bounds(CC_LIMIT as int) by {
                assert(grid.vertices@[i] == gfin.vertices@[i]);
            }
            assert forall|c: int| 0 <= c < grid.cells@.len() implies (
            #[trigger] grid.cells@[c]).generator.in_bounds(
                crate::geometry::COORD_LIMIT as int,
            ) by {
                assert(grid.cells@[c] == gfin.cells@[c]);
            }
        }
        Ok(grid)
    }

    /// Builds the Voronoi grid of a point batch directly: the Delaunay
    /// triangulation first (with the periodic ghost policy if asked), then
    /// its dual.
    pub fn from_points(
        points_x: &Vec<i64>,
        points_y: &Vec<i64>,
        simulation_domain: SimulationDomain2D,
        make_periodic: bool,
    ) -> (r: Result<VoronoiGrid2D, DelaunayError>)
        requires
            points_x@.len() == points_y@.len(),
            points_x@.len() <= 233000,
            forall|i: int|
                0 <= i < points_x@.len() ==> -crate::geometry::COORD_LIMIT
                    <= #[trigger] points_x@[i] <= crate::geometry::COORD_LIMIT,
            forall|i: int|
                0 <= i < points_y@.len() ==> -crate::geometry::COORD_LIMIT
                    <= #[trigger] points_y@[i] <= crate::geometry::COORD_LIMIT,
            simulation_domain.wf(),
        ensures
            (r matches Ok(g) ==> {
                &&& g.grid_ok()
                &&& g.n_cells == points_x@.len()
                &&& g.is_periodic == make_periodic
                &&& g.domain == simulation_domain
                &&& forall|c: int|
                    0 <= c < points_x@.len() ==> (#[trigger] g.cells@[c]).generator.x
                        == points_x@[c] && g.cells@[c].generator.y == points_y@[c]
            }),
    {
        let delaunay = match DelaunayTriangulation2D::from_points(
            points_x,
            points_y,
            simulation_domain,
            make_periodic,
        ) {
            Result::Ok(d) => d,
            Result::Err(e) => {
                return Err(e);
            },
        };
        let g = match VoronoiGrid2D::from_delaunay_triangulation(&delaunay) {
            Result::Ok(g) => g,
            Result::Err(e) => {
                return Err(e);
            },
        };
        proof {
            assert forall|c: int| 0 <= c < points_x@.len() implies (
            #[trigger] g.cells@[c]).generator.x == points_x@[c] && g.cells@[c].generator.y
                == points_y@[c] by {
                assert(delaunay.vert(3 + c).x == points_x@[c]);
                assert(g.cells@[c].generator.x == delaunay.vert(c + 3).x);
            }
        }
        Ok(g)
    }

    /// The centroids of the first `n` cells, rounded to the nearest plain
    /// grid point; these are the generators of the next Lloyd iteration.
    fn round_centroids(&self, n: usize) -> (r: Result<(Vec<i64>, Vec<i64>), DelaunayError>)
        requires
            self.grid_ok(),
            n <= self.cells@.len(),
        ensures
            (r matches Ok(gs) ==> {
                &&& gs.0@.len() == n
                &&& gs.1@.len() == n
                &&& forall|i: int|
                    0 <= i < n ==> -crate::geometry::COORD_LIMIT <= #[trigger] gs.0@[i]
                        <= crate::geometry::COORD_LIMIT
                &&& forall|i: int|
                    0 <= i < n ==> -crate::geometry::COORD_LIMIT <= #[trigger] gs.1@[i]
                        <= crate::geometry::COORD_LIMIT
            }),
    {
        let mut gx: Vec<i64> = Vec::new();
        let mut gy: Vec<i64> = Vec::new();
        let mut i: usize = 0;
        while i < n
            invariant
                self.grid_ok(),
                n <= self.cells@.len(),
                i <= n,
                gx@.len() == i,
                gy@.len() == i,
                forall|k: int|
                    0 <= k < i ==> -crate::geometry::COORD_LIMIT <= #[trigger] gx@[k]
                        <= crate::geometry::COORD_LIMIT,
                forall|k: int|
                    0 <= k < i ==> -crate::geometry::COORD_LIMIT <= #[trigger] gy@[k]
                        <= crate::geometry::COORD_LIMIT,
            decreases n - i,
        {
            proof {
                assert(self.cell_ok(i as int));
            }
            let c = &self.cells[i];
            let rx = floor_div_i128(c.centroid.x as i128 + 512, 1024);
            let ry = floor_div_i128(c.centroid.y as i128 + 512, 1024);
            if rx < -crate::geometry::COORD_LIMIT as i128 || rx > crate::geometry::COORD_LIMIT
                as i128 || ry < -crate::geometry::COORD_LIMIT as i128 || ry
                > crate::geometry::COORD_LIMIT as i128 {
                return Err(DelaunayError::OutsideDomain);
            }
            gx.push(rx as i64);
            gy.push(ry as i64);
            i = i + 1;
        }
        Ok((gx, gy))
    }

    /// Lloyd relaxation: rebuilds the tessellation from the current cells'
    /// centroids until the largest generator displacement falls below the
    /// threshold, stops improving, or the iteration cap is reached.
    pub fn lloyd_relax(&self, move_threshold: i64, max_iter: usize) -> (r: Result<
        VoronoiGrid2D,
        DelaunayError,
    >)
        requires
            self.grid_ok(),
            self.domain.wf(),
            0 <= move_threshold <= crate::geometry::COORD_LIMIT,
            self.n_cells <= 233000,
        ensures
            (r matches Ok(g) ==> {
                &&& g.grid_ok()
                &&& g.n_cells == self.n_cells
                &&& g.is_periodic == self.is_periodic
                &&& g.domain == self.domain
            }),
    {
        let n = self.n_cells;
        proof {
            crate::geometry::lemma_mul_abs_bound(
                move_threshold as int * 1024,
                move_threshold as int * 1024,
                0x40000000,
                0x40000000,
            );
        }
        let threshold_sq: i128 = (move_threshold as i128 * 1024) * (move_threshold as i128 * 1024);
        let mut gens = match self.round_centroids(n) {
            Result::Ok(gs) => gs,
            Result::Err(e) => {
                return Err(e);
            },
        };
        let mut v = match VoronoiGrid2D::from_points(&gens.0, &gens.1, self.domain, self.is_periodic) {
            Result::Ok(g) => g,
            Result::Err(e) => {
                return Err(e);
            },
        };

        let mut previous_max_displacement: i128 = 0x7fffffffffffffffffffffffffffffff;
        let mut iter: usize = 0;
        while iter < max_iter
            invariant
                self.grid_ok(),
                self.domain.wf(),
                n == self.n_cells,
                n <= 233000,
                v.grid_ok(),
                v.n_cells == n,
                v.is_periodic == self.is_periodic,
                v.domain == self.domain,
                gens.0@.len() == n,
                gens.1@.len() == n,
                forall|k: int|
                    0 <= k < n ==> -crate::geometry::COORD_LIMIT <= #[trigger] gens.0@[k]
                        <= crate::geometry::COORD_LIMIT,
                forall|k: int|
                    0 <= k < n ==> -crate::geometry::COORD_LIMIT <= #[trigger] gens.1@[k]
                        <= crate::geometry::COORD_LIMIT,
            decreases max_iter - iter,
        {
            // the largest displacement between a generator and its cell's
            // centroid
            let mut max_displacement: i128 = 0;
            let mut i: usize = 0;
            while i < n
                invariant
                    v.grid_ok(),
                    v.n_cells == n,
                    gens.0@.len() == n,
                    gens.1@.len() == n,
                    i <= n,
                    0 <= max_displacement,
                    forall|k: int|
                        0 <= k < n ==> -crate::geometry::COORD_LIMIT <= #[trigger] gens.0@[k]
                            <= crate::geometry::COORD_LIMIT,
                    forall|k: int|
                        0 <= k < n ==> -crate::geometry::COORD_LIMIT <= #[trigger] gens.1@[k]
                            <= crate::geometry::COORD_LIMIT,
                decreases n - i,
            {
                proof {
                    assert(v.cell_ok(i as int));
                }
                let c = &v.cells[i];
                let dx = gens.0[i] as i128 * 1024 - c.centroid.x as i128;
                let dy = gens.1[i] as i128 * 1024 - c.centroid.y as i128;
                proof {
                    let b: int = 0x200000000;
                    crate::geometry::lemma_mul_abs_bound(dx as int, dx as int, 2 * b, 2 * b);
                    crate::geometry::lemma_mul_abs_bound(dy as int, dy as int, 2 * b, 2 * b);
                    assert(dx * dx >= 0) by (nonlinear_arith);
                    assert(dy * dy >= 0) by (nonlinear_arith);
                }
                let displacement = dx * dx + dy * dy;
                if displacement > max_displacement {
                    max_displacement = displacement;
                }
                i = i + 1;
            }

            // the monotonicity guard against numerical noise
            if max_displacement > previous_max_displacement {
                return Ok(v);
            }
            previous_max_displacement = max_displacement;
            if max_displacement < threshold_sq {
                return Ok(v);
            }
            iter = iter + 1;

            gens = match v.round_centroids(n) {
                Result::Ok(gs) => gs,
                Result::Err(e) => {
                    return Err(e);
                },
            };
            v = match VoronoiGrid2D::from_points(&gens.0, &gens.1, self.domain, self.is_periodic) {
                Result::Ok(g) => g,
                Result::Err(e) => {
                    return Err(e);
                },
            };
        }
        Ok(v)
    }
}

} // verus!
