use survey_cad_truck_gui::commands::{Command, CommandStack, Context};
use survey_cad_truck_gui::selection::{delete_selected, delete_selected_points, sort_indices};

type P = (i32, i32);
type Dim = (P, P);

fn drawing(points: Vec<P>, styles: Vec<usize>) -> Context<P, Dim> {
    Context {
        points,
        point_styles: styles,
        lines: Vec::new(),
        line_styles: Vec::new(),
        dimensions: Vec::new(),
    }
}

#[test]
fn sorts_indices() {
    let mut v = vec![5, 1, 4, 1, 0];
    sort_indices(&mut v);
    assert_eq!(v, vec![0, 1, 1, 4, 5]);
    let mut e: Vec<usize> = Vec::new();
    sort_indices(&mut e);
    assert!(e.is_empty());
}

#[test]
fn deletes_selected_items_from_the_highest_index() {
    let mut items = vec!["a", "b", "c", "d", "e"];
    let mut sel = vec![3, 0, 9, 1];
    let removed = delete_selected(&mut items, &mut sel);
    assert_eq!(items, vec!["c", "e"]);
    assert_eq!(removed, vec![3, 1, 0]);
    assert!(sel.is_empty());
}

#[test]
fn repeated_index_removes_twice() {
    let mut items = vec![10, 11, 12, 13];
    let mut sel = vec![1, 1];
    let removed = delete_selected(&mut items, &mut sel);
    assert_eq!(items, vec![10, 13]);
    assert_eq!(removed, vec![1, 1]);
}

#[test]
fn deleting_points_records_their_return() {
    let mut ctx = drawing(vec![(0, 0), (1, 1), (2, 2), (3, 3)], vec![0, 0, 0, 0]);
    let mut stack: CommandStack<P, Dim, [i32; 3]> = CommandStack::new();
    let mut sel = vec![2, 0];
    let removed = delete_selected_points(&mut stack, &mut ctx, &mut sel);
    assert_eq!(removed, vec![2, 0]);
    assert_eq!(ctx.points, vec![(1, 1), (3, 3)]);
    assert_eq!(ctx.point_styles, vec![0, 0]);
    assert!(sel.is_empty());
    // undo puts the points back, lowest index first
    stack.undo(&mut ctx);
    assert_eq!(ctx.points, vec![(0, 0), (1, 1), (3, 3)]);
    stack.undo(&mut ctx);
    assert_eq!(ctx.points, vec![(0, 0), (1, 1), (2, 2), (3, 3)]);
    assert_eq!(ctx.point_styles, vec![0, 0, 0, 0]);
    assert!(stack.undo(&mut ctx).is_none());
}

#[test]
fn undo_after_delete_gives_default_style() {
    let mut ctx = drawing(vec![(0, 0), (1, 1)], vec![7, 0]);
    let mut stack: CommandStack<P, Dim, [i32; 3]> = CommandStack::new();
    let mut sel = vec![0];
    delete_selected_points(&mut stack, &mut ctx, &mut sel);
    stack.undo(&mut ctx);
    assert_eq!(ctx.points, vec![(0, 0), (1, 1)]);
    assert_eq!(ctx.point_styles, vec![0, 0]);
}

#[test]
fn deleting_nothing_keeps_redo() {
    let mut ctx = drawing(vec![(0, 0)], vec![0]);
    let mut stack: CommandStack<P, Dim, [i32; 3]> = CommandStack::new();
    stack.push(Command::RemovePoint { index: 0, point: (0, 0) });
    stack.undo(&mut ctx);
    assert_eq!(ctx.points, Vec::<P>::new());
    let mut sel = vec![4];
    let removed = delete_selected_points(&mut stack, &mut ctx, &mut sel);
    assert!(removed.is_empty());
    assert!(stack.redo(&mut ctx).is_some());
    assert_eq!(ctx.points, vec![(0, 0)]);
}

#[test]
fn short_style_column_keeps_its_length() {
    let mut ctx = drawing(vec![(0, 0), (1, 1), (2, 2)], vec![4]);
    let mut stack: CommandStack<P, Dim, [i32; 3]> = CommandStack::new();
    let mut sel = vec![2];
    delete_selected_points(&mut stack, &mut ctx, &mut sel);
    assert_eq!(ctx.points, vec![(0, 0), (1, 1)]);
    assert_eq!(ctx.point_styles, vec![4]);
}
