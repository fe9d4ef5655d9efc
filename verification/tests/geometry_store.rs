use survey_cad_truck_gui::geometry::GeometryStore;
use survey_cad_truck_gui::mesh::SurfaceData;

type P3 = (f64, f64, f64);
type Store = GeometryStore<P3, [f32; 4], f32>;

fn grid() -> Vec<P3> {
    vec![(0.0, 0.0, 0.0), (1.0, 0.0, 0.0), (1.0, 1.0, 0.0), (0.0, 1.0, 0.0)]
}

#[test]
fn points_lines_and_dimensions() {
    let mut g: Store = GeometryStore::new();
    assert_eq!(g.add_point((1.0, 2.0, 3.0)), 0);
    assert_eq!(g.add_point((4.0, 5.0, 6.0)), 1);
    g.update_point(1, (7.0, 8.0, 9.0));
    g.update_point(5, (0.0, 0.0, 0.0));
    assert_eq!(g.points, vec![(1.0, 2.0, 3.0), (7.0, 8.0, 9.0)]);
    g.remove_point(0);
    g.remove_point(9);
    assert_eq!(g.points, vec![(7.0, 8.0, 9.0)]);

    let white = [1.0f32, 1.0, 1.0, 1.0];
    assert_eq!(g.add_line((0.0, 0.0, 0.0), (1.0, 0.0, 0.0), white, 1.0), 0);
    g.update_line(0, (0.0, 0.0, 0.0), (2.0, 0.0, 0.0), white, 2.0);
    assert_eq!(g.lines[0].1, (2.0, 0.0, 0.0));
    assert_eq!(g.lines[0].3, 2.0);
    g.remove_line(0);
    assert!(g.lines.is_empty());

    assert_eq!(g.add_dimension((0.0, 0.0, 0.0), (3.0, 4.0, 0.0)), 0);
    g.remove_dimension(0);
    assert!(g.dimensions.is_empty());

    g.add_solid(vec![(0.0, 0.0, 0.0)]);
    g.clear();
    assert!(g.points.is_empty() && g.solids.is_empty() && g.surfaces.is_empty());
}

#[test]
fn delete_vertex_drops_and_renumbers_triangles() {
    let mut g: Store = GeometryStore::new();
    let s = g.add_surface(&grid(), &[[0, 1, 2], [0, 2, 3], [1, 2, 3]]);
    assert_eq!(s, 0);
    g.delete_vertex(0, 1);
    let surf = &g.surfaces[0];
    assert_eq!(surf.vertices, vec![(0.0, 0.0, 0.0), (1.0, 1.0, 0.0), (0.0, 1.0, 0.0)]);
    assert_eq!(surf.triangles, vec![[0, 1, 2]]);
    g.delete_vertex(0, 10);
    assert_eq!(g.surfaces[0].vertices.len(), 3);
    g.delete_vertex(4, 0);
    assert_eq!(g.surfaces[0].triangles, vec![[0, 1, 2]]);
}

#[test]
fn vertices_and_triangles_of_a_surface() {
    let mut g: Store = GeometryStore::new();
    g.add_surface(&grid(), &[[0, 1, 2]]);
    assert_eq!(g.add_vertex(0, (2.0, 2.0, 2.0)), Some(4));
    assert_eq!(g.add_vertex(3, (2.0, 2.0, 2.0)), None);
    g.move_vertex(0, 4, (3.0, 3.0, 3.0));
    assert_eq!(g.surfaces[0].vertices[4], (3.0, 3.0, 3.0));
    g.add_triangle(0, [2, 3, 4]);
    assert_eq!(g.surfaces[0].triangles, vec![[0, 1, 2], [2, 3, 4]]);
    g.delete_triangle(0, 0);
    assert_eq!(g.surfaces[0].triangles, vec![[2, 3, 4]]);
    g.delete_triangle(0, 7);
    assert_eq!(g.surfaces[0].triangles.len(), 1);
}

#[test]
fn breaklines_are_unique_in_either_direction() {
    let mut g: Store = GeometryStore::new();
    g.add_surface(&grid(), &[]);
    g.add_breakline(0, 0, 2);
    g.add_breakline(0, 2, 0);
    g.add_breakline(0, 0, 9);
    g.add_breakline(0, 1, 3);
    assert_eq!(g.surfaces[0].breaklines, vec![(0, 2), (1, 3)]);
    g.remove_breakline(0, 3, 1);
    assert_eq!(g.surfaces[0].breaklines, vec![(0, 2)]);
    g.remove_breakline(0, 1, 2);
    assert_eq!(g.surfaces[0].breaklines, vec![(0, 2)]);
}

#[test]
fn remove_breakline_undoes_add() {
    let mut s = SurfaceData::new(&grid(), &[]);
    s.add_breakline(0, 1);
    let before = s.breaklines.clone();
    s.add_breakline(2, 3);
    s.remove_breakline(2, 3);
    assert_eq!(s.breaklines, before);
}

#[test]
fn boundary_needs_three_known_vertices() {
    let mut g: Store = GeometryStore::new();
    g.add_surface(&grid(), &[]);
    g.set_boundary(0, vec![0, 1]);
    assert!(g.surfaces[0].boundary.is_none());
    g.set_boundary(0, vec![0, 1, 7]);
    assert!(g.surfaces[0].boundary.is_none());
    g.set_boundary(0, vec![0, 1, 2, 3]);
    assert_eq!(g.surfaces[0].boundary, Some(vec![0, 1, 2, 3]));
    g.clear_boundary(0);
    assert!(g.surfaces[0].boundary.is_none());
}

#[test]
fn update_surface_drops_breaklines_and_boundary() {
    let mut g: Store = GeometryStore::new();
    g.add_surface(&grid(), &[[0, 1, 2]]);
    g.add_breakline(0, 0, 1);
    g.set_boundary(0, vec![0, 1, 2]);
    g.update_surface(0, &grid()[..3], &[[2, 1, 0]]);
    let s = &g.surfaces[0];
    assert_eq!(s.vertices.len(), 3);
    assert_eq!(s.triangles, vec![[2, 1, 0]]);
    assert!(s.breaklines.is_empty());
    assert!(s.boundary.is_none());
    g.remove_surface(0);
    assert!(g.surfaces.is_empty());
}

#[test]
fn snap_scene_flattens_surfaces_and_solids() {
    let mut g: Store = GeometryStore::new();
    g.add_point((1.0, 1.0, 1.0));
    g.add_line((0.0, 0.0, 0.0), (2.0, 0.0, 0.0), [1.0; 4], 1.0);
    g.add_surface(&grid()[..2], &[]);
    g.add_surface(&grid()[2..], &[]);
    g.add_solid(vec![(9.0, 9.0, 9.0)]);
    let scene = g.snap_scene();
    assert_eq!(scene.points, vec![(1.0, 1.0, 1.0)]);
    assert_eq!(scene.lines, vec![((0.0, 0.0, 0.0), (2.0, 0.0, 0.0))]);
    assert_eq!(scene.surface_vertices, grid());
    assert_eq!(scene.solid_vertices, vec![(9.0, 9.0, 9.0)]);
}

#[test]
fn deleting_an_added_vertex_or_triangle_undoes_it() {
    let mut g: Store = GeometryStore::new();
    let s = g.add_surface(&grid(), &[[0, 1, 2], [0, 2, 3]]);
    let idx = g.add_vertex(s, (5.0, 5.0, 1.0)).unwrap();
    assert_eq!(idx, 4);
    g.delete_vertex(s, idx);
    assert_eq!(g.surfaces[s].vertices, grid());
    assert_eq!(g.surfaces[s].triangles, vec![[0, 1, 2], [0, 2, 3]]);
    g.add_triangle(s, [1, 2, 3]);
    g.delete_triangle(s, 2);
    assert_eq!(g.surfaces[s].triangles, vec![[0, 1, 2], [0, 2, 3]]);
}

#[test]
fn default_store_is_empty() {
    let g: Store = Default::default();
    assert!(g.points.is_empty() && g.lines.is_empty() && g.dimensions.is_empty());
    assert!(g.surfaces.is_empty() && g.solids.is_empty());
}
