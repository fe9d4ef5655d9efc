use survey_cad_truck_gui::engine::{SlotTable, SurfaceTable};
use survey_cad_truck_gui::render::polyline_ring_edges;

#[test]
fn slot_ids_are_stable() {
    let mut t: SlotTable<&str> = SlotTable::new();
    assert_eq!(t.add("a"), 0);
    assert_eq!(t.add("b"), 1);
    assert_eq!(t.take(0), Some("a"));
    assert_eq!(t.take(0), None);
    assert_eq!(t.get(1), Some(&"b"));
    assert_eq!(t.add("c"), 2);
    assert_eq!(t.len(), 3);
    assert_eq!(t.replace(1, "d"), Ok("b"));
    assert_eq!(t.replace(0, "e"), Err("e"));
    assert_eq!(t.get(0), None);
    t.clear();
    assert_eq!(t.len(), 0);
}

#[test]
fn engine_surface_edits() {
    let mut s: SurfaceTable<(i64, i64), u8> = SurfaceTable::new();
    let id = s.add_surface(&[(0, 0), (1, 0), (1, 1)], &[[0, 1, 2]], 7);
    assert_eq!(id, 0);
    assert_eq!(s.add_surface_vertex(id, (0, 1)), Some(3));
    assert_eq!(s.add_surface_vertex(5, (0, 1)), None);
    assert!(s.add_surface_triangle(id, [0, 2, 3]));
    assert!(!s.add_surface_triangle(id, [0, 2, 4]));
    assert!(s.move_surface_vertex(id, 3, (0, 2)));
    assert!(!s.move_surface_vertex(id, 9, (0, 2)));
    assert!(s.delete_surface_vertex(id, 1));
    let surf = s.slots.get(id).unwrap();
    assert_eq!(surf.vertices, vec![(0, 0), (1, 1), (0, 2)]);
    assert_eq!(surf.triangles, vec![[0, 1, 2]]);
    assert!(s.delete_surface_triangle(id, 0));
    assert!(!s.delete_surface_triangle(id, 0));
    assert!(s.update_surface(id, &[(5, 5)], &[]));
    assert_eq!(s.slots.get(id).unwrap().instance, 7);
    let removed = s.remove_surface(id).unwrap();
    assert_eq!(removed.instance, 7);
    assert!(!s.update_surface(id, &[], &[]));
}

#[test]
fn ring_edges_close_the_polygon() {
    assert_eq!(polyline_ring_edges(3), Some(vec![(0, 1), (1, 2), (2, 0)]));
    assert_eq!(polyline_ring_edges(2), None);
}

#[test]
fn edits_keep_the_instance_until_it_is_replaced() {
    let mut s: SurfaceTable<(i64, i64), u8> = SurfaceTable::new();
    let id = s.add_surface(&[(0, 0), (1, 0), (1, 1)], &[[0, 1, 2]], 3);
    assert!(s.move_surface_vertex(id, 0, (2, 2)));
    assert_eq!(s.slots.get(id).unwrap().instance, 3);
    assert_eq!(s.replace_instance(id, 4), Ok(3));
    let surf = s.slots.get(id).unwrap();
    assert_eq!(surf.instance, 4);
    assert_eq!(surf.vertices, vec![(2, 2), (1, 0), (1, 1)]);
    assert_eq!(s.replace_instance(8, 5), Err(5));
    s.remove_surface(id);
    assert_eq!(s.replace_instance(id, 6), Err(6));
}
