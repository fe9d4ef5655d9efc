use survey_cad_truck_gui::snap::{snap_has_entities, snap_plan, Scene3D, SnapCandidate, SnapOptions};
use survey_cad_truck_gui::inspector::{has_selection, PointAttributes};
use survey_cad_truck_gui::ui_state::{Theme, WorkspaceProfile};
use survey_cad_truck_gui::commands::MacroPlaying;

fn scene() -> Scene3D<i32> {
    Scene3D {
        points: vec![1, 2],
        lines: vec![(10, 20)],
        surface_vertices: vec![3],
        solid_vertices: vec![4],
    }
}

fn describe(c: &SnapCandidate<i32>) -> String {
    match c {
        SnapCandidate::At(p) => format!("at {p}"),
        SnapCandidate::Midpoint(a, b) => format!("mid {a} {b}"),
        SnapCandidate::Projection(a, b) => format!("proj {a} {b}"),
    }
}

#[test]
fn candidates_in_order() {
    let opts = SnapOptions {
        snap_points: true,
        snap_endpoints: true,
        snap_midpoints: true,
        snap_nearest: true,
        snap_surfaces: true,
        snap_solids: true,
        ..Default::default()
    };
    let got: Vec<String> = scene().snap_candidates(opts).iter().map(describe).collect();
    assert_eq!(
        got,
        vec!["at 1", "at 2", "at 3", "at 4", "at 10", "at 20", "mid 10 20", "proj 10 20"]
    );
}

#[test]
fn surface_vertices_need_point_snapping() {
    let opts = SnapOptions { snap_surfaces: true, snap_solids: true, ..Default::default() };
    assert!(scene().snap_candidates(opts).is_empty());
    let opts = SnapOptions { snap_midpoints: true, ..Default::default() };
    let got: Vec<String> = scene().snap_candidates(opts).iter().map(describe).collect();
    assert_eq!(got, vec!["mid 10 20"]);
}

#[test]
fn plan_for_2d_snapping() {
    let plan = snap_plan(SnapOptions { snap_points: true, ..Default::default() });
    assert!(plan.use_points && !plan.use_linework && plan.endpoints);
    assert!(snap_has_entities(plan, 1, 0, 0, 0, 0));
    assert!(!snap_has_entities(plan, 0, 5, 5, 5, 5));
    let plan = snap_plan(SnapOptions { snap_intersections: true, ..Default::default() });
    assert!(!plan.use_points && plan.use_linework && plan.intersections && !plan.endpoints);
    assert!(snap_has_entities(plan, 0, 0, 0, 0, 1));
}

#[test]
fn selection_and_defaults() {
    let none: Vec<usize> = Vec::new();
    let lines: Vec<(i32, i32)> = vec![(1, 2)];
    let no_lines: Vec<(i32, i32)> = Vec::new();
    assert!(!has_selection(&none, &no_lines, &none, &none, &none, &none));
    assert!(has_selection(&none, &lines, &none, &none, &none, &none));
    assert!(has_selection(&none, &no_lines, &none, &none, &none, &vec![0]));
    assert!(WorkspaceProfile::default() == WorkspaceProfile::Surveyor);
    assert!(Theme::default() == Theme::Dark);
    assert!(!MacroPlaying::default().0);
}

#[test]
fn inspector_pads_attribute_columns() {
    let mut a = PointAttributes {
        layers: vec![3],
        styles: vec![],
        metadata: vec!["m".to_string()],
        elevation: vec![],
        measurement: vec![],
        data_sets: vec![],
    };
    a.ensure_row(2);
    assert_eq!(a.layers, vec![3, 0, 0]);
    assert_eq!(a.styles, vec![0, 0, 0]);
    assert_eq!(a.metadata, vec!["m".to_string(), String::new(), String::new()]);
    assert_eq!(a.elevation.len(), 3);
    assert_eq!(a.data_sets, vec![0, 0, 0]);
    a.ensure_row(0);
    assert_eq!(a.layers.len(), 3);
}
