use survey_cad_truck_gui::commands::{
    script_to_run, ScriptRun, apply_command, backend_action, spawn_line, spawn_point, BackendAction, Command, CommandStack,
    Context,
};

#[derive(Clone, Copy, Debug, PartialEq)]
struct Point {
    x: f64,
    y: f64,
}

impl Point {
    fn new(x: f64, y: f64) -> Self {
        Point { x, y }
    }
}

type Dim = (Point, Point);
type Cmd = Command<Point, Dim, [f64; 3]>;

fn empty_context() -> Context<Point, Dim> {
    Context {
        points: Vec::new(),
        point_styles: Vec::new(),
        lines: Vec::new(),
        line_styles: Vec::new(),
        dimensions: Vec::new(),
    }
}

#[test]
fn undo_redo_point() {
    let mut ctx = empty_context();
    let mut stack: CommandStack<Point, Dim, [f64; 3]> = CommandStack::new();

    let p = Point::new(1.0, 2.0);
    spawn_point(&mut ctx, p);
    stack.push(Command::RemovePoint { index: 0, point: p });

    assert_eq!(ctx.points.len(), 1);
    stack.undo(&mut ctx);
    assert_eq!(ctx.points.len(), 0);
    stack.redo(&mut ctx);
    assert_eq!(ctx.points.len(), 1);
}

#[test]
fn pushing_clears_redo() {
    let mut ctx = empty_context();
    let mut stack: CommandStack<Point, Dim, [f64; 3]> = CommandStack::new();

    let p1 = Point::new(0.0, 0.0);
    spawn_point(&mut ctx, p1);
    stack.push(Command::RemovePoint { index: 0, point: p1 });

    let p2 = Point::new(1.0, 1.0);
    spawn_point(&mut ctx, p2);
    stack.push(Command::RemovePoint { index: 1, point: p2 });

    assert_eq!(ctx.points.len(), 2);
    stack.undo(&mut ctx); // removes p2
    assert_eq!(ctx.points.len(), 1);

    let p3 = Point::new(2.0, 2.0);
    spawn_point(&mut ctx, p3);
    stack.push(Command::RemovePoint { index: 1, point: p3 });
    assert_eq!(ctx.points.len(), 2);

    stack.redo(&mut ctx); // should do nothing
    assert_eq!(ctx.points.len(), 2);
}

#[test]
fn undo_then_redo_restores_points_and_styles() {
    let mut ctx = empty_context();
    let mut stack: CommandStack<Point, Dim, [f64; 3]> = CommandStack::new();
    let a = Point::new(1.0, 1.0);
    let b = Point::new(2.0, 2.0);
    spawn_point(&mut ctx, a);
    spawn_point(&mut ctx, b);
    stack.push(Command::RemovePoint { index: 0, point: a });
    let action = stack.undo(&mut ctx);
    assert!(matches!(action, Some(BackendAction::RemovePoint(0))));
    assert_eq!(ctx.points, vec![b]);
    assert_eq!(ctx.point_styles, vec![0]);
    let action = stack.redo(&mut ctx);
    assert!(matches!(action, Some(BackendAction::AddPoint(p)) if p == a));
    assert_eq!(ctx.points, vec![a, b]);
    assert_eq!(ctx.point_styles, vec![0, 0]);
}

#[test]
fn undo_with_empty_stack_does_nothing() {
    let mut ctx = empty_context();
    spawn_point(&mut ctx, Point::new(3.0, 4.0));
    let mut stack: CommandStack<Point, Dim, [f64; 3]> = CommandStack::new();
    assert!(stack.undo(&mut ctx).is_none());
    assert!(stack.redo(&mut ctx).is_none());
    assert_eq!(ctx.points.len(), 1);
}

#[test]
fn apply_line_commands_and_inverse() {
    let mut ctx = empty_context();
    let a = Point::new(0.0, 0.0);
    let b = Point::new(5.0, 5.0);
    spawn_line(&mut ctx, a, b);
    assert_eq!(ctx.points, vec![a, b]);
    assert_eq!(ctx.point_styles, vec![0, 0]);
    assert_eq!(ctx.lines, vec![(a, b)]);
    assert_eq!(ctx.line_styles, vec![0]);

    let remove: Cmd = Command::RemoveLine { index: 0, line: (a, b) };
    let inverse = apply_command(&remove, &mut ctx);
    assert!(ctx.lines.is_empty());
    assert!(ctx.line_styles.is_empty());
    assert!(matches!(inverse, Command::AddLine { index: 0, line } if line == (a, b)));
    let again = apply_command(&inverse, &mut ctx);
    assert_eq!(ctx.lines, vec![(a, b)]);
    assert_eq!(ctx.line_styles, vec![0]);
    assert!(matches!(again, Command::RemoveLine { index: 0, .. }));
}

#[test]
fn add_point_inserts_at_index_with_default_style() {
    let mut ctx = empty_context();
    let a = Point::new(0.0, 0.0);
    let b = Point::new(1.0, 0.0);
    let c = Point::new(2.0, 0.0);
    spawn_point(&mut ctx, a);
    spawn_point(&mut ctx, c);
    ctx.point_styles[1] = 7;
    let add: Cmd = Command::AddPoint { index: 1, point: b };
    let inv = apply_command(&add, &mut ctx);
    assert_eq!(ctx.points, vec![a, b, c]);
    assert_eq!(ctx.point_styles, vec![0, 0, 7]);
    assert!(matches!(inv, Command::RemovePoint { index: 1, point } if point == b));
}

#[test]
fn dimension_commands_round_trip() {
    let mut ctx = empty_context();
    let d = (Point::new(0.0, 0.0), Point::new(3.0, 4.0));
    let add: Cmd = Command::AddDimension { index: 0, dim: d };
    let inv = apply_command(&add, &mut ctx);
    assert_eq!(ctx.dimensions, vec![d]);
    apply_command(&inv, &mut ctx);
    assert!(ctx.dimensions.is_empty());
}

#[test]
fn surface_commands_only_touch_the_view() {
    let mut ctx = empty_context();
    spawn_point(&mut ctx, Point::new(1.0, 1.0));
    let del: Cmd = Command::TinDeleteVertex { surface: 2, index: 5, point: [1.0, 2.0, 3.0] };
    let inv = apply_command(&del, &mut ctx);
    assert_eq!(ctx.points.len(), 1);
    assert!(matches!(inv, Command::TinAddVertex { surface: 2, index: 5, point } if point == [1.0, 2.0, 3.0]));
    assert!(matches!(backend_action(&del), BackendAction::DeleteVertex(2, 5)));
    assert!(matches!(backend_action(&inv), BackendAction::AddVertex(2, p) if p == [1.0, 2.0, 3.0]));
}

#[test]
fn quick_script_slots() {
    let scripts = vec!["survey.py".to_string(), String::new(), "draw.txt".to_string(), "py".to_string()];
    assert!(matches!(script_to_run(&scripts, 0), ScriptRun::Python(ref n) if n == "survey.py"));
    assert!(matches!(script_to_run(&scripts, 1), ScriptRun::Nothing));
    assert!(matches!(script_to_run(&scripts, 2), ScriptRun::Macro(ref n) if n == "draw.txt"));
    assert!(matches!(script_to_run(&scripts, 3), ScriptRun::Macro(ref n) if n == "py"));
    assert!(matches!(script_to_run(&scripts, 4), ScriptRun::Nothing));
}

#[test]
fn default_stack_has_nothing_to_undo() {
    let mut ctx = empty_context();
    let mut stack: CommandStack<Point, Dim, [f64; 3]> = Default::default();
    assert!(stack.undo_ready(&ctx) && stack.redo_ready(&ctx));
    assert!(stack.undo(&mut ctx).is_none());
    assert!(stack.redo(&mut ctx).is_none());
}

#[test]
fn readiness_follows_the_drawing() {
    let mut ctx = empty_context();
    let mut stack: CommandStack<Point, Dim, [f64; 3]> = CommandStack::new();
    stack.push(Command::RemovePoint { index: 0, point: Point::new(0.0, 0.0) });
    assert!(!stack.undo_ready(&ctx));
    spawn_point(&mut ctx, Point::new(0.0, 0.0));
    assert!(stack.undo_ready(&ctx));
}
