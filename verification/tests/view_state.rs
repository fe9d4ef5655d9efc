use survey_cad_truck_gui::backend::{
    boundary_edges, gizmo_axis, handle_edit, hover_update, move_alignment_pi,
    move_vertical_vertex, Axis, BackendState, GizmoMode, HandleEdit, HandleTarget, Highlight,
    HitObject, HorizontalElement, HoverState, VerticalElement, pick, PickEffect, alignment_handles,
    ElementEnd,
};

type P3 = (f64, f64, f64);

#[test]
fn boundary_loop_edges() {
    assert_eq!(boundary_edges(&vec![4, 7, 9]), vec![(4, 7), (7, 9), (9, 4)]);
    assert_eq!(boundary_edges(&vec![1, 2]), vec![(1, 2), (2, 1)]);
    assert!(boundary_edges(&vec![3]).is_empty());
}

#[test]
fn hover_switches_highlights() {
    let h = HoverState { surface: Some(2), handle: None };
    let (h1, changes) = hover_update(h, Some(HitObject::Handle(5)));
    assert!(h1 == HoverState { surface: None, handle: Some(5) });
    assert!(changes == vec![Highlight::Handle(5, true), Highlight::Surface(2, false)]);
    let (h2, changes) = hover_update(h1, Some(HitObject::Handle(5)));
    assert!(h2 == h1);
    assert!(changes.is_empty());
    let (h3, changes) = hover_update(h2, Some(HitObject::Surface(1)));
    assert!(h3 == HoverState { surface: Some(1), handle: None });
    assert!(changes == vec![Highlight::Surface(1, true), Highlight::Handle(5, false)]);
    let (h4, changes) = hover_update(h3, None);
    assert!(h4 == HoverState { surface: None, handle: None });
    assert!(changes == vec![Highlight::Surface(1, false)]);
}

#[test]
fn handle_edits() {
    assert!(gizmo_axis(0) == Axis::X && gizmo_axis(1) == Axis::Y && gizmo_axis(7) == Axis::Z);
    assert!(handle_edit(HandleTarget::Point(3), 0, 0, false) == HandleEdit::Point(3));
    assert!(handle_edit(HandleTarget::Point(3), 1, 0, false) == HandleEdit::Nothing);
    assert!(handle_edit(HandleTarget::Line(1), 1, 2, false) == HandleEdit::LineEnd(1, false));
    assert!(handle_edit(HandleTarget::Line(1), 5, 2, false) == HandleEdit::LineRedraw(1));
    assert!(handle_edit(HandleTarget::Line(2), 0, 2, false) == HandleEdit::Nothing);
    assert!(handle_edit(HandleTarget::Surface(4), 9, 0, false) == HandleEdit::SurfaceVertex(4, 9));
    let g = HandleTarget::Gizmo(GizmoMode::Scale, HitObject::Point(0));
    assert!(handle_edit(g, 1, 0, true) == HandleEdit::Gizmo(GizmoMode::Scale, HitObject::Point(0), Axis::Y));
    assert!(handle_edit(g, 1, 0, false) == HandleEdit::Nothing);
}

#[test]
fn moving_a_pi_moves_both_tangents() {
    let mut elems: Vec<HorizontalElement<(i32, i32), (), ()>> = vec![
        HorizontalElement::Tangent { start: (0, 0), end: (1, 0) },
        HorizontalElement::Curve { arc: () },
        HorizontalElement::Tangent { start: (2, 0), end: (3, 0) },
    ];
    move_alignment_pi(&mut elems, 1, (9, 9));
    assert!(matches!(elems[0], HorizontalElement::Tangent { start: (0, 0), end: (9, 9) }));
    assert!(matches!(elems[1], HorizontalElement::Curve { .. }));
    move_alignment_pi(&mut elems, 3, (7, 7));
    assert!(matches!(elems[2], HorizontalElement::Tangent { start: (2, 0), end: (7, 7) }));
    move_alignment_pi(&mut elems, 0, (5, 5));
    assert!(matches!(elems[0], HorizontalElement::Tangent { start: (5, 5), end: (9, 9) }));
}

#[test]
fn moving_a_profile_vertex() {
    let mut elems = vec![
        VerticalElement::Grade { start_station: 0, end_station: 10, start_elev: 100, end_elev: 105 },
        VerticalElement::Parabola { start_station: 10, end_station: 20, start_elev: 105, start_grade: 1, end_grade: -1 },
    ];
    move_vertical_vertex(&mut elems, 1, 12, 106);
    assert!(matches!(elems[0], VerticalElement::Grade { end_station: 12, end_elev: 106, .. }));
    assert!(matches!(elems[1], VerticalElement::Parabola { start_station: 12, start_elev: 106, .. }));
    move_vertical_vertex(&mut elems, 2, 25, 90);
    assert!(matches!(elems[1], VerticalElement::Parabola { end_station: 25, start_elev: 106, .. }));
}

#[test]
fn backend_state_keeps_ids_aligned() {
    let mut b: BackendState<P3, [f32; 4], f32> = BackendState::new();
    assert_eq!(b.add_point((0.0, 0.0, 0.0), 10), 0);
    assert_eq!(b.add_point((1.0, 0.0, 0.0), 11), 1);
    assert_eq!(b.update_point(1, (2.0, 0.0, 0.0)), Some(11));
    assert_eq!(b.remove_point(0), Some(10));
    assert_eq!(b.point_ids, vec![Some(11)]);
    assert_eq!(b.geometry.points, vec![(2.0, 0.0, 0.0)]);
    assert_eq!(b.remove_point(4), None);
    assert_eq!(b.add_line((0.0, 0.0, 0.0), (1.0, 1.0, 1.0), [1.0; 4], 1.0, 3), 0);
    assert_eq!(b.remove_line(0), Some(3));
    assert_eq!(b.add_dimension((0.0, 0.0, 0.0), (1.0, 0.0, 0.0), 4), 0);
    assert_eq!(b.remove_dimension(0), Some(4));
    assert_eq!(b.add_surface(&[(0.0, 0.0, 0.0)], &[], None), 0);
    assert_eq!(b.update_surface(0, &[], &[]), None);
    assert_eq!(b.remove_surface(0), None);
    b.set_handles(HandleTarget::Point(0), vec![20, 21]);
    assert_eq!(b.handle_marker(1), Some(21));
    assert_eq!(b.handle_marker(2), None);
    assert_eq!(b.hide_handles(), vec![20, 21]);
    assert!(b.handles.is_none());
    b.set_handles(HandleTarget::AlignmentPi, vec![30]);
    assert_eq!(b.clear(), vec![30]);
    assert!(b.point_ids.is_empty() && b.geometry.points.is_empty());
}

#[test]
fn picking_selects_surfaces() {
    let (sel, fx) = pick(None, HitObject::Surface(3));
    assert!(sel == Some(3));
    assert!(fx == vec![PickEffect::Highlight(Highlight::Surface(3, true)), PickEffect::SurfaceHandles(3)]);
    let (sel, fx) = pick(sel, HitObject::Surface(1));
    assert!(sel == Some(1));
    assert!(
        fx == vec![
            PickEffect::Highlight(Highlight::Surface(3, false)),
            PickEffect::Highlight(Highlight::Surface(1, true)),
            PickEffect::SurfaceHandles(1),
        ]
    );
    let (sel, fx) = pick(sel, HitObject::Point(4));
    assert!(sel == Some(1));
    assert!(fx == vec![PickEffect::PointHandles(4)]);
    let (sel, fx) = pick(sel, HitObject::Line(0));
    assert!(sel == Some(1));
    assert!(fx == vec![PickEffect::LineHandles(0)]);
    let (sel, fx) = pick(sel, HitObject::Boundary);
    assert!(sel.is_none());
    assert!(fx == vec![PickEffect::Highlight(Highlight::Surface(1, false)), PickEffect::HideHandles]);
    let (sel, fx) = pick(sel, HitObject::Handle(2));
    assert!(sel.is_none());
    assert!(fx.is_empty());
}

#[test]
fn picking_a_surface_again_keeps_it() {
    let (sel, fx) = pick(Some(2), HitObject::Surface(2));
    assert!(sel == Some(2));
    assert!(
        fx == vec![
            PickEffect::Highlight(Highlight::Surface(2, false)),
            PickEffect::Highlight(Highlight::Surface(2, true)),
            PickEffect::SurfaceHandles(2),
        ]
    );
}

#[test]
fn alignment_handles_sit_on_the_joints() {
    assert!(alignment_handles(0).is_empty());
    assert!(alignment_handles(1) == vec![ElementEnd::Start(0), ElementEnd::End(0)]);
    assert!(
        alignment_handles(3)
            == vec![ElementEnd::Start(0), ElementEnd::End(0), ElementEnd::End(1), ElementEnd::End(2)]
    );
}
