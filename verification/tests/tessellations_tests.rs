use tessellations::DelaunayError;
use tessellations::delaunay2d::{DelaunayTriangulation2D, VertexKind};
use tessellations::direction::{
    Direction, direction_as_vector, direction_to_sort_list_id, get_direction, invert_direction,
};
use tessellations::geometry::{
    Vertex2D, circumcenter_2d, floor_div_i128, in_circle_2d, isqrt_u128, orient_2d,
};
use tessellations::simulation_domain_2d::SimulationDomain2D;
use tessellations::utils::random_choose;
use tessellations::voronoi2d::VoronoiGrid2D;

fn unit_domain() -> SimulationDomain2D {
    SimulationDomain2D::new([0, 0], [1024, 1024])
}

#[test]
fn orient_2d_signs() {
    assert_eq!(orient_2d(0, 0, 2, 0, 0, 2), 4);
    assert_eq!(orient_2d(0, 0, 0, 2, 2, 0), -4);
    assert_eq!(orient_2d(0, 0, 1, 1, 2, 2), 0);
}

#[test]
fn in_circle_2d_signs() {
    // (1, 1) is strictly inside the circle through (0,0), (4,0), (0,4).
    assert!(in_circle_2d(0, 0, 4, 0, 0, 4, 1, 1) < 0);
    // (9, 9) is far outside it.
    assert!(in_circle_2d(0, 0, 4, 0, 0, 4, 9, 9) > 0);
    // The four corners of a square are cocircular: the determinant is zero.
    assert_eq!(in_circle_2d(256, 256, 768, 256, 768, 768, 256, 768), 0);
}

#[test]
fn circumcenter_of_right_triangle() {
    // Circumcenter of (0,0), (2,0), (0,2) is (1,1): (1024, 1024) refined.
    let cc = circumcenter_2d(0, 0, 2, 0, 0, 2).unwrap();
    assert_eq!(cc.x(), 1024);
    assert_eq!(cc.y(), 1024);
}

#[test]
fn floor_division_rounds_down() {
    assert_eq!(floor_div_i128(7, 2), 3);
    assert_eq!(floor_div_i128(-7, 2), -4);
    assert_eq!(floor_div_i128(-8, 2), -4);
    assert_eq!(floor_div_i128(0, 5), 0);
}

#[test]
fn integer_square_root() {
    assert_eq!(isqrt_u128(0), 0);
    assert_eq!(isqrt_u128(1), 1);
    assert_eq!(isqrt_u128(35), 5);
    assert_eq!(isqrt_u128(36), 6);
    assert_eq!(isqrt_u128(u64::MAX as u128), 4294967295);
}

#[test]
fn direction_sort_ids_and_inverse() {
    let dirs = [
        Direction::RightDown,
        Direction::Right,
        Direction::RightUp,
        Direction::Up,
        Direction::Center,
        Direction::Down,
        Direction::LeftDown,
        Direction::Left,
        Direction::LeftUp,
    ];
    for (i, d) in dirs.iter().enumerate() {
        assert_eq!(direction_to_sort_list_id(*d), i);
        // a direction and its inverse sit at mirrored sort positions
        assert_eq!(direction_to_sort_list_id(invert_direction(*d)), 8 - i);
        // inverting twice gives the direction back
        assert_eq!(invert_direction(invert_direction(*d)), *d);
        // the inverse carries the opposite translation
        let v = direction_as_vector(*d);
        let w = direction_as_vector(invert_direction(*d));
        assert_eq!(w.0, -v.0);
        assert_eq!(w.1, -v.1);
    }
}

#[test]
fn direction_between_anchors() {
    assert_eq!(get_direction([0, 0], [1, 0]), Direction::Right);
    assert_eq!(get_direction([1, 0], [0, 0]), Direction::Left);
    assert_eq!(get_direction([0, 0], [1, 1]), Direction::RightUp);
    assert_eq!(get_direction([5, 5], [5, 5]), Direction::Center);
    assert_eq!(get_direction([3, 7], [3, 2]), Direction::Down);
}

#[test]
fn random_choose_picks_one() {
    for _ in 0..32 {
        let r = random_choose(1, 2);
        assert!(r == 1 || r == 2);
    }
}

#[test]
fn fresh_triangulation_is_consistent() {
    let d = DelaunayTriangulation2D::new(unit_domain(), 8, 16);
    assert_eq!(d.vertices.len(), 3);
    assert_eq!(d.triangles.len(), 4);
    assert_eq!(d.n_vertices, 0);
    assert!(d.consistency_check().is_ok());
    for v in &d.vertices {
        assert_eq!(v.kind, VertexKind::BoundingCorner);
    }
}

#[test]
fn single_insertion_splits_super_triangle() {
    let mut d = DelaunayTriangulation2D::new(unit_domain(), 8, 16);
    d.insert_point(512, 512).unwrap();
    // the super-triangle has become three triangles, all sharing the point
    assert_eq!(d.vertices.len(), 4);
    assert_eq!(d.triangles.len(), 6);
    assert_eq!(d.n_vertices, 1);
    assert!(d.consistency_check().is_ok());
    let ring = d.get_triangle_idx_around_vertex(3).unwrap();
    assert_eq!(ring.len(), 3);
    assert_eq!(d.vertices[3].kind, VertexKind::Real);
}

#[test]
fn two_insertions_stay_delaunay() {
    let mut d = DelaunayTriangulation2D::new(unit_domain(), 8, 16);
    d.insert_point(512, 512).unwrap();
    d.insert_point(768, 973).unwrap();
    assert_eq!(d.vertices.len(), 5);
    assert_eq!(d.triangles.len(), 8);
    // the local Delaunay criterion holds everywhere in the final mesh
    assert!(d.consistency_check().is_ok());
}

#[test]
fn four_point_square_has_two_real_triangles() {
    let xs: Vec<i64> = vec![256, 768, 256, 768];
    let ys: Vec<i64> = vec![256, 256, 768, 768];
    let d = DelaunayTriangulation2D::from_points(&xs, &ys, unit_domain(), false).unwrap();
    assert!(d.consistency_check().is_ok());
    // count triangles whose corners are all real generators
    let mut real_triangles = 0;
    for t in 3..d.triangles.len() {
        let tri = &d.triangles[t];
        let all_real = (0..3).all(|k| {
            let v = tri.vertices[k];
            v >= 0 && d.vertices[v as usize].kind == VertexKind::Real
        });
        if all_real {
            real_triangles += 1;
        }
    }
    assert_eq!(real_triangles, 2);
}

#[test]
fn insertion_outside_super_triangle_is_rejected() {
    let mut d = DelaunayTriangulation2D::new(unit_domain(), 8, 16);
    let r = d.insert_point(-800000, -800000);
    assert_eq!(r, Err(DelaunayError::OutsideDomain));
    assert_eq!(d.n_vertices, 0);
}

#[test]
fn coincident_point_is_degenerate() {
    let mut d = DelaunayTriangulation2D::new(unit_domain(), 8, 16);
    d.insert_point(512, 512).unwrap();
    let r = d.insert_point(512, 512);
    assert_eq!(r, Err(DelaunayError::Degenerate));
}

#[test]
fn search_radii_at_least_the_floor() {
    let xs: Vec<i64> = vec![256, 768, 256, 768];
    let ys: Vec<i64> = vec![256, 256, 768, 768];
    let mut d = DelaunayTriangulation2D::from_points(&xs, &ys, unit_domain(), false).unwrap();
    d.update_vertex_search_radii(12345, 4).unwrap();
    for i in 3..7 {
        assert!(d.vertices[i].search_radius_sq >= 12345);
    }
}

#[test]
fn periodic_build_mirrors_every_generator() {
    let xs: Vec<i64> = vec![237, 761, 259, 757];
    let ys: Vec<i64> = vec![261, 253, 773, 741];
    let mut d = DelaunayTriangulation2D::from_points(&xs, &ys, unit_domain(), true).unwrap();
    assert!(d.is_periodic);
    assert!(d.consistency_check().is_ok());
    // the seed search radius covers the whole domain: all eight images of
    // each of the four generators are present
    assert_eq!(d.vertices.len(), 3 + 4 + 4 * 8);
    for i in 7..d.vertices.len() {
        assert_eq!(d.vertices[i].kind, VertexKind::Mirror);
    }
    // the policy is monotone: a second sweep inserts nothing new
    let before = d.vertices.len();
    d.add_ghost_points().unwrap();
    assert_eq!(d.vertices.len(), before);
}

#[test]
fn ghost_point_records_its_translation() {
    let mut d = DelaunayTriangulation2D::new(unit_domain(), 8, 16);
    d.insert_point(500, 500).unwrap();
    d.insert_ghost_point(256, 256, Direction::Right).unwrap();
    let g = &d.vertices[4];
    assert_eq!(g.kind, VertexKind::Mirror);
    assert_eq!(g.x, 256 + 1024);
    assert_eq!(g.y, 256);
    assert_eq!(g.direction, Direction::Right);
}

#[test]
fn periodic_voronoi_tiles_the_domain() {
    let xs: Vec<i64> = vec![237, 761, 259, 757];
    let ys: Vec<i64> = vec![261, 253, 773, 741];
    let g = VoronoiGrid2D::from_points(&xs, &ys, unit_domain(), true).unwrap();
    assert_eq!(g.n_cells, 4);
    assert!(g.is_periodic);
    let mut total: i128 = 0;
    for c in 0..g.n_cells {
        let cell = &g.cells[c];
        // every real cell is complete, with a face per polygon edge
        assert!(cell.vertices.len() >= 3);
        assert_eq!(cell.vertices.len(), cell.faces.len());
        assert!(cell.volume_x2 > 0);
        total += cell.volume_x2;
    }
    // the four cells tile the torus exactly: twice the domain area, in
    // squared refined units
    assert_eq!(total, 2 * (1024 * 1024) * (1024 * 1024));
}

#[test]
fn periodic_centroids_stay_inside_the_domain() {
    let xs: Vec<i64> = vec![237, 761, 259, 757];
    let ys: Vec<i64> = vec![261, 253, 773, 741];
    let g = VoronoiGrid2D::from_points(&xs, &ys, unit_domain(), true).unwrap();
    for c in 0..g.n_cells {
        let cell = &g.cells[c];
        assert!(0 <= cell.centroid.x && cell.centroid.x <= 1024 * 1024);
        assert!(0 <= cell.centroid.y && cell.centroid.y <= 1024 * 1024);
    }
}

#[test]
fn faces_separate_distinct_cells() {
    let xs: Vec<i64> = vec![237, 761, 259, 757];
    let ys: Vec<i64> = vec![261, 253, 773, 741];
    let g = VoronoiGrid2D::from_points(&xs, &ys, unit_domain(), true).unwrap();
    assert!(!g.faces.is_empty());
    for f in &g.faces {
        assert_ne!(f.adjacent_cells[0], f.adjacent_cells[1]);
    }
}

#[test]
fn non_periodic_voronoi_emits_boundary_cells() {
    // without ghosts the one-rings reach the super-triangle corners, so the
    // cells spill outside the domain, but they are still complete polygons
    // with positive area and faces parallel to their boundaries
    let xs: Vec<i64> = vec![256, 768, 256, 768];
    let ys: Vec<i64> = vec![256, 256, 768, 768];
    let g = VoronoiGrid2D::from_points(&xs, &ys, unit_domain(), false).unwrap();
    assert_eq!(g.n_cells, 4);
    assert_eq!(g.cells.len(), 4);
    for c in 0..4 {
        assert!(g.cells[c].vertices.len() >= 3);
        assert_eq!(g.cells[c].faces.len(), g.cells[c].vertices.len());
        assert!(g.cells[c].volume_x2 > 0);
    }
}

#[test]
fn lloyd_relaxation_returns_a_tiling_grid() {
    let xs: Vec<i64> = vec![237, 761, 259, 757];
    let ys: Vec<i64> = vec![261, 253, 773, 741];
    let g = VoronoiGrid2D::from_points(&xs, &ys, unit_domain(), true).unwrap();
    let relaxed = g.lloyd_relax(16, 4).unwrap();
    assert_eq!(relaxed.n_cells, 4);
    assert!(relaxed.is_periodic);
    // the relaxed cells still tile the torus exactly
    let mut total: i128 = 0;
    for c in 0..relaxed.n_cells {
        let cell = &relaxed.cells[c];
        assert_eq!(cell.vertices.len(), cell.faces.len());
        total += cell.volume_x2;
    }
    assert_eq!(total, 2 * (1024 * 1024) * (1024 * 1024));
}

#[test]
fn triangle_circumcenters_match_voronoi_vertices() {
    let xs: Vec<i64> = vec![237, 761, 259, 757];
    let ys: Vec<i64> = vec![261, 253, 773, 741];
    let d = DelaunayTriangulation2D::from_points(&xs, &ys, unit_domain(), true).unwrap();
    let g = VoronoiGrid2D::from_delaunay_triangulation(&d).unwrap();
    assert_eq!(g.vertices.len(), d.triangles.len() - 3);
    for t in 3..d.triangles.len() {
        let cc = d.triangle_circumcenter(t).unwrap();
        assert_eq!(g.vertices[t - 3].x, cc.x);
        assert_eq!(g.vertices[t - 3].y, cc.y);
    }
}

#[test]
fn vertex_accessors() {
    let v = Vertex2D::new(7, -3);
    assert_eq!(v.x(), 7);
    assert_eq!(v.y(), -3);
}

#[test]
fn scattered_points_build_consistent_meshes() {
    // a quasi-random scatter: distinct points, many flips
    let mut xs: Vec<i64> = Vec::new();
    let mut ys: Vec<i64> = Vec::new();
    for i in 0..30i64 {
        xs.push((193 * i + 131) % 1000 + 12);
        ys.push((389 * i + 547) % 1000 + 12);
    }
    let d = DelaunayTriangulation2D::from_points(&xs, &ys, unit_domain(), false).unwrap();
    assert_eq!(d.n_vertices, 30);
    assert!(d.consistency_check().is_ok());

    let dp = DelaunayTriangulation2D::from_points(&xs, &ys, unit_domain(), true).unwrap();
    assert!(dp.consistency_check().is_ok());
}

#[test]
fn scattered_periodic_voronoi_tiles_exactly() {
    let mut xs: Vec<i64> = Vec::new();
    let mut ys: Vec<i64> = Vec::new();
    for i in 0..20i64 {
        xs.push((193 * i + 131) % 1000 + 12);
        ys.push((389 * i + 547) % 1000 + 12);
    }
    let g = VoronoiGrid2D::from_points(&xs, &ys, unit_domain(), true).unwrap();
    assert_eq!(g.n_cells, 20);
    let mut total: i128 = 0;
    for c in 0..g.n_cells {
        let cell = &g.cells[c];
        assert!(cell.volume_x2 > 0);
        assert_eq!(cell.vertices.len(), cell.faces.len());
        total += cell.volume_x2;
    }
    assert_eq!(total, 2 * (1024 * 1024) * (1024 * 1024));
}

#[test]
fn consistency_check_detects_a_broken_link() {
    let mut d = DelaunayTriangulation2D::new(unit_domain(), 8, 16);
    d.insert_point(512, 512).unwrap();
    assert!(d.consistency_check().is_ok());
    // corrupt one neighbour link: the checker must notice
    d.triangles[4].neighbours[0] = 0;
    d.triangles[4].index_in_neighbours[0] = 0;
    assert_eq!(d.consistency_check(), Err(DelaunayError::Invariant));
}
