use survey_cad_truck_gui::drawing::{key_command, DrawAction, DrawingMode, KeyCommand};

type P = (i32, i32);
type Mode = DrawingMode<P, f64>;

fn is_idle(m: &Mode) -> bool {
    matches!(m, DrawingMode::Idle)
}

#[test]
fn line_takes_two_presses() {
    let mut m: Mode = DrawingMode::Line { start: None };
    assert!(matches!(m.press((1, 2), false), DrawAction::Nothing));
    assert!(matches!(m, DrawingMode::Line { start: Some((1, 2)) }));
    assert!(matches!(m.press((3, 4), false), DrawAction::AddLine((1, 2), (3, 4))));
    assert!(is_idle(&m));
}

#[test]
fn dimension_takes_two_presses() {
    let mut m: Mode = DrawingMode::Dimension { start: None };
    assert!(matches!(m.press((0, 0), true), DrawAction::Nothing));
    assert!(matches!(m.press((5, 0), true), DrawAction::AddDimension((0, 0), (5, 0))));
    assert!(is_idle(&m));
}

#[test]
fn polygon_closes_on_double_press() {
    let mut m: Mode = DrawingMode::Polygon { vertices: Vec::new() };
    assert!(matches!(m.press((0, 0), false), DrawAction::Nothing));
    assert!(matches!(m.press((1, 0), false), DrawAction::Nothing));
    // a double press with only two points so far does not finish
    assert!(matches!(m.press((1, 1), false), DrawAction::Nothing));
    match m.press((0, 1), true) {
        DrawAction::AddPolygon(v) => assert_eq!(v, vec![(0, 0), (1, 0), (1, 1), (0, 1), (0, 0)]),
        _ => panic!("expected a polygon"),
    }
    assert!(is_idle(&m));
}

#[test]
fn polygon_double_press_needs_three_points() {
    let mut m: Mode = DrawingMode::Polygon { vertices: Vec::new() };
    assert!(matches!(m.press((0, 0), true), DrawAction::Nothing));
    assert!(matches!(m.press((1, 0), true), DrawAction::Nothing));
    match &m {
        DrawingMode::Polygon { vertices } => assert_eq!(vertices, &vec![(0, 0), (1, 0)]),
        _ => panic!("still drawing"),
    }
}

#[test]
fn center_arc_takes_four_presses() {
    let mut m: Mode = DrawingMode::ArcCenter { center: None, radius_at: None, start_at: None };
    assert!(matches!(m.press((0, 0), false), DrawAction::Nothing));
    assert!(matches!(m.press((2, 0), false), DrawAction::Nothing));
    assert!(matches!(m.press((0, 2), false), DrawAction::Nothing));
    match m.press((-2, 0), false) {
        DrawAction::ArcByCenter { center, radius_at, start_at, end_at } => {
            assert_eq!((center, radius_at, start_at, end_at), ((0, 0), (2, 0), (0, 2), (-2, 0)));
        }
        _ => panic!("expected an arc"),
    }
    assert!(is_idle(&m));
}

#[test]
fn three_point_arc_takes_three_presses() {
    let mut m: Mode = DrawingMode::ArcThreePoint { p1: None, p2: None };
    m.press((0, 0), false);
    m.press((1, 1), false);
    assert!(matches!(m.press((2, 0), false), DrawAction::ArcThroughPoints((0, 0), (1, 1), (2, 0))));
    assert!(is_idle(&m));
}

#[test]
fn start_end_arc_with_typed_radius_waits() {
    let mut m: Mode = DrawingMode::ArcStartEndRadius { start: None, end: None, radius: None };
    m.press((0, 0), false);
    m.press((4, 0), false);
    match m.press((2, 1), false) {
        DrawAction::ArcStartEndRadius { start, end, radius, through } => {
            assert_eq!((start, end, through), ((0, 0), (4, 0), (2, 1)));
            assert!(radius.is_none());
        }
        _ => panic!("expected an arc"),
    }
    // with a radius already typed in, a press after start and end does nothing
    let mut typed: Mode =
        DrawingMode::ArcStartEndRadius { start: Some((0, 0)), end: Some((4, 0)), radius: Some(3.0) };
    assert!(matches!(typed.press((2, 1), false), DrawAction::Nothing));
    assert!(!is_idle(&typed));
    // a click completes it with the typed radius
    match typed.click((2, 1), false) {
        DrawAction::ArcStartEndRadius { radius, .. } => assert_eq!(radius, Some(3.0)),
        _ => panic!("expected an arc"),
    }
    assert!(is_idle(&typed));
}

#[test]
fn click_never_starts_a_line() {
    let mut m: Mode = DrawingMode::Line { start: None };
    assert!(matches!(m.click((1, 1), false), DrawAction::Nothing));
    assert!(matches!(m, DrawingMode::Line { start: None }));
    let mut started: Mode = DrawingMode::Line { start: Some((0, 0)) };
    assert!(matches!(started.click((1, 1), false), DrawAction::AddLine((0, 0), (1, 1))));
    assert!(is_idle(&started));
}

#[test]
fn clicked_polygon_is_not_closed() {
    let mut m: Mode = DrawingMode::Polygon { vertices: vec![(0, 0), (1, 0)] };
    match m.click((1, 1), true) {
        DrawAction::AddPolygon(v) => assert_eq!(v, vec![(0, 0), (1, 0), (1, 1)]),
        _ => panic!("expected a polygon"),
    }
}

#[test]
fn finish_key_closes_polygon() {
    let mut m: Mode = DrawingMode::Polygon { vertices: vec![(0, 0), (1, 0), (1, 1)] };
    match m.finish() {
        DrawAction::AddPolygon(v) => assert_eq!(v, vec![(0, 0), (1, 0), (1, 1), (0, 0)]),
        _ => panic!("expected a polygon"),
    }
    assert!(is_idle(&m));
    let mut short: Mode = DrawingMode::Polygon { vertices: vec![(0, 0), (1, 0)] };
    assert!(matches!(short.finish(), DrawAction::Nothing));
    assert!(!is_idle(&short));
}

#[test]
fn key_bindings() {
    assert!(matches!(key_command("\u{001a}"), KeyCommand::Undo));
    assert!(matches!(key_command("\u{0019}"), KeyCommand::Redo));
    assert!(matches!(key_command("\u{001b}"), KeyCommand::Cancel));
    assert!(matches!(key_command("\n"), KeyCommand::Finish));
    assert!(matches!(key_command("F5"), KeyCommand::QuickScript(0)));
    assert!(matches!(key_command("F6"), KeyCommand::QuickScript(1)));
    assert!(matches!(key_command("F7"), KeyCommand::QuickScript(2)));
    assert!(matches!(key_command("F8"), KeyCommand::Ignore));
    assert!(matches!(key_command("z"), KeyCommand::Ignore));
}
