use vstd::prelude::*;
use vstd::string::StrSliceExecFns;

verus! {

/// An undoable edit of the drawing.  `P` is the 2D point type of the
/// drawing, `D` its dimension type and `V` the 3D vertex type of surfaces.
#[allow(inconsistent_fields)]
pub enum Command<P, D, V> {
    RemovePoint { index: usize, point: P },
    AddPoint { index: usize, point: P },
    RemoveLine { index: usize, line: (P, P) },
    AddLine { index: usize, line: (P, P) },
    RemoveDimension { index: usize, dim: D },
    AddDimension { index: usize, dim: D },
    TinDeleteVertex { surface: usize, index: usize, point: V },
    TinAddVertex { surface: usize, index: usize, point: V },
}

/// Whether a macro is being played back (recording is paused meanwhile).
#[derive(Default)]
pub struct MacroPlaying(pub bool);

/// The drawing that commands edit: points and lines with a style index
/// each, and dimensions.
pub struct Context<P, D> {
    pub points: Vec<P>,
    pub point_styles: Vec<usize>,
    pub lines: Vec<(P, P)>,
    pub line_styles: Vec<usize>,
    pub dimensions: Vec<D>,
}

/// The contents of a drawing as mathematical values.
pub struct ContextView<P, D> {
    pub points: Seq<P>,
    pub point_styles: Seq<usize>,
    pub lines: Seq<(P, P)>,
    pub line_styles: Seq<usize>,
    pub dimensions: Seq<D>,
}

impl<P, D> View for Context<P, D> {
    type V = ContextView<P, D>;

    open spec fn view(&self) -> ContextView<P, D> {
        ContextView {
            points: self.points@,
            point_styles: self.point_styles@,
            lines: self.lines@,
            line_styles: self.line_styles@,
            dimensions: self.dimensions@,
        }
    }
}

/// What a command asks of the 3D view: the view appends new points, lines
/// and dimensions at its end, whatever index the drawing uses.
pub enum BackendAction<P, D, V> {
    RemovePoint(usize),
    AddPoint(P),
    RemoveLine(usize),
    AddLine(P, P),
    RemoveDimension(usize),
    AddDimension(D),
    DeleteVertex(usize, usize),
    AddVertex(usize, V),
}

/// The command that undoes `cmd`.
pub open spec fn inverse<P, D, V>(cmd: Command<P, D, V>) -> Command<P, D, V> {
    match cmd {
        Command::RemovePoint { index, point } => Command::AddPoint { index, point },
        Command::AddPoint { index, point } => Command::RemovePoint { index, point },
        Command::RemoveLine { index, line } => Command::AddLine { index, line },
        Command::AddLine { index, line } => Command::RemoveLine { index, line },
        Command::RemoveDimension { index, dim } => Command::AddDimension { index, dim },
        Command::AddDimension { index, dim } => Command::RemoveDimension { index, dim },
        Command::TinDeleteVertex { surface, index, point } => Command::TinAddVertex {
            surface,
            index,
            point,
        },
        Command::TinAddVertex { surface, index, point } => Command::TinDeleteVertex {
            surface,
            index,
            point,
        },
    }
}

/// Whether the drawing has the places that `cmd` edits: an element to
/// remove, or a position to insert at.
pub open spec fn applicable<P, D, V>(cmd: Command<P, D, V>, ctx: ContextView<P, D>) -> bool {
    match cmd {
        Command::RemovePoint { index, .. } => index < ctx.points.len() && index
            < ctx.point_styles.len(),
        Command::AddPoint { index, .. } => index <= ctx.points.len() && index
            <= ctx.point_styles.len(),
        Command::RemoveLine { index, .. } => index < ctx.lines.len() && index
            < ctx.line_styles.len(),
        Command::AddLine { index, .. } => index <= ctx.lines.len() && index
            <= ctx.line_styles.len(),
        Command::RemoveDimension { index, .. } => index < ctx.dimensions.len(),
        Command::AddDimension { index, .. } => index <= ctx.dimensions.len(),
        Command::TinDeleteVertex { .. } => true,
        Command::TinAddVertex { .. } => true,
    }
}

/// Whether a removal command names what stands in the drawing: the
/// element it removes, with the default style 0.  Insertions always do.
pub open spec fn describes<P, D, V>(cmd: Command<P, D, V>, ctx: ContextView<P, D>) -> bool {
    match cmd {
        Command::RemovePoint { index, point } => ctx.points[index as int] == point
            && ctx.point_styles[index as int] == 0,
        Command::RemoveLine { index, line } => ctx.lines[index as int] == line
            && ctx.line_styles[index as int] == 0,
        Command::RemoveDimension { index, dim } => ctx.dimensions[index as int] == dim,
        _ => true,
    }
}

/// The drawing after `cmd`.  New points and lines get style 0; the surface
/// commands leave the drawing as it is.
pub open spec fn apply_spec<P, D, V>(cmd: Command<P, D, V>, ctx: ContextView<P, D>) -> ContextView<
    P,
    D,
> {
    match cmd {
        Command::RemovePoint { index, .. } => ContextView {
            points: ctx.points.remove(index as int),
            point_styles: ctx.point_styles.remove(index as int),
            ..ctx
        },
        Command::AddPoint { index, point } => ContextView {
            points: ctx.points.insert(index as int, point),
            point_styles: ctx.point_styles.insert(index as int, 0),
            ..ctx
        },
        Command::RemoveLine { index, .. } => ContextView {
            lines: ctx.lines.remove(index as int),
            line_styles: ctx.line_styles.remove(index as int),
            ..ctx
        },
        Command::AddLine { index, line } => ContextView {
            lines: ctx.lines.insert(index as int, line),
            line_styles: ctx.line_styles.insert(index as int, 0),
            ..ctx
        },
        Command::RemoveDimension { index, .. } => ContextView {
            dimensions: ctx.dimensions.remove(index as int),
            ..ctx
        },
        Command::AddDimension { index, dim } => ContextView {
            dimensions: ctx.dimensions.insert(index as int, dim),
            ..ctx
        },
        Command::TinDeleteVertex { .. } => ctx,
        Command::TinAddVertex { .. } => ctx,
    }
}

/// What `cmd` asks of the 3D view.
pub open spec fn backend_action_spec<P, D, V>(cmd: Command<P, D, V>) -> BackendAction<P, D, V> {
    match cmd {
        Command::RemovePoint { index, .. } => BackendAction::RemovePoint(index),
        Command::AddPoint { point, .. } => BackendAction::AddPoint(point),
        Command::RemoveLine { index, .. } => BackendAction::RemoveLine(index),
        Command::AddLine { line, .. } => BackendAction::AddLine(line.0, line.1),
        Command::RemoveDimension { index, .. } => BackendAction::RemoveDimension(index),
        Command::AddDimension { dim, .. } => BackendAction::AddDimension(dim),
        Command::TinDeleteVertex { surface, index, .. } => BackendAction::DeleteVertex(
            surface,
            index,
        ),
        Command::TinAddVertex { surface, point, .. } => BackendAction::AddVertex(surface, point),
    }
}

/// Copies a command.
pub fn copy_command<P: Copy, D: Copy, V: Copy>(cmd: &Command<P, D, V>) -> (c: Command<P, D, V>)
    ensures
        c == *cmd,
{
    match cmd {
        Command::RemovePoint { index, point } => Command::RemovePoint {
            index: *index,
            point: *point,
        },
        Command::AddPoint { index, point } => Command::AddPoint { index: *index, point: *point },
        Command::RemoveLine { index, line } => Command::RemoveLine { index: *index, line: *line },
        Command::AddLine { index, line } => Command::AddLine { index: *index, line: *line },
        Command::RemoveDimension { index, dim } => Command::RemoveDimension {
            index: *index,
            dim: *dim,
        },
        Command::AddDimension { index, dim } => Command::AddDimension { index: *index, dim: *dim },
        Command::TinDeleteVertex { surface, index, point } => Command::TinDeleteVertex {
            surface: *surface,
            index: *index,
            point: *point,
        },
        Command::TinAddVertex { surface, index, point } => Command::TinAddVertex {
            surface: *surface,
            index: *index,
            point: *point,
        },
    }
}

/// What `cmd` asks of the 3D view.
pub fn backend_action<P: Copy, D: Copy, V: Copy>(cmd: &Command<P, D, V>) -> (a: BackendAction<
    P,
    D,
    V,
>)
    ensures
        a == backend_action_spec(*cmd),
{
    match cmd {
        Command::RemovePoint { index, .. } => BackendAction::RemovePoint(*index),
        Command::AddPoint { point, .. } => BackendAction::AddPoint(*point),
        Command::RemoveLine { index, .. } => BackendAction::RemoveLine(*index),
        Command::AddLine { line, .. } => BackendAction::AddLine(line.0, line.1),
        Command::RemoveDimension { index, .. } => BackendAction::RemoveDimension(*index),
        Command::AddDimension { dim, .. } => BackendAction::AddDimension(*dim),
        Command::TinDeleteVertex { surface, index, .. } => BackendAction::DeleteVertex(
            *surface,
            *index,
        ),
        Command::TinAddVertex { surface, point, .. } => BackendAction::AddVertex(
            *surface,
            *point,
        ),
    }
}

/// Carries out `cmd` on the drawing and returns the command that undoes
/// it.  What it asks of the 3D view is `backend_action(cmd)`.
pub fn apply_command<P: Copy, D: Copy, V: Copy>(
    cmd: &Command<P, D, V>,
    ctx: &mut Context<P, D>,
) -> (inv: Command<P, D, V>)
    requires
        applicable(*cmd, old(ctx)@),
    ensures
        final(ctx)@ == apply_spec(*cmd, old(ctx)@),
        inv == inverse(*cmd),
{
    match cmd {
        Command::RemovePoint { index, point } => {
            ctx.points.remove(*index);
            ctx.point_styles.remove(*index);
            Command::AddPoint { index: *index, point: *point }
        },
        Command::AddPoint { index, point } => {
            ctx.points.insert(*index, *point);
            ctx.point_styles.insert(*index, 0);
            Command::RemovePoint { index: *index, point: *point }
        },
        Command::RemoveLine { index, line } => {
            ctx.lines.remove(*index);
            ctx.line_styles.remove(*index);
            Command::AddLine { index: *index, line: *line }
        },
        Command::AddLine { index, line } => {
            ctx.lines.insert(*index, *line);
            ctx.line_styles.insert(*index, 0);
            Command::RemoveLine { index: *index, line: *line }
        },
        Command::RemoveDimension { index, dim } => {
            ctx.dimensions.remove(*index);
            Command::AddDimension { index: *index, dim: *dim }
        },
        Command::AddDimension { index, dim } => {
            ctx.dimensions.insert(*index, *dim);
            Command::RemoveDimension { index: *index, dim: *dim }
        },
        Command::TinDeleteVertex { surface, index, point } => Command::TinAddVertex {
            surface: *surface,
            index: *index,
            point: *point,
        },
        Command::TinAddVertex { surface, index, point } => Command::TinDeleteVertex {
            surface: *surface,
            index: *index,
            point: *point,
        },
    }
}

/// Undoing a command twice gives the command back.
pub proof fn law_inverse_involution<P, D, V>(cmd: Command<P, D, V>)
    ensures
        inverse(inverse(cmd)) == cmd,
{
}

/// Carrying out a command and then the command it returned leaves the
/// drawing as it was, provided a removal names what it removes.
pub proof fn law_apply_then_inverse_restores<P, D, V>(
    cmd: Command<P, D, V>,
    ctx: ContextView<P, D>,
)
    requires
        applicable(cmd, ctx),
        describes(cmd, ctx),
    ensures
        applicable(inverse(cmd), apply_spec(cmd, ctx)),
        describes(inverse(cmd), apply_spec(cmd, ctx)),
        apply_spec(inverse(cmd), apply_spec(cmd, ctx)) == ctx,
{
    match cmd {
        Command::RemovePoint { index, point } => {
            assert(ctx.points.remove(index as int).insert(index as int, point) =~= ctx.points);
            assert(ctx.point_styles.remove(index as int).insert(index as int, 0)
                =~= ctx.point_styles);
        },
        Command::AddPoint { index, point } => {
            assert(ctx.points.insert(index as int, point).remove(index as int) =~= ctx.points);
            assert(ctx.point_styles.insert(index as int, 0).remove(index as int)
                =~= ctx.point_styles);
        },
        Command::RemoveLine { index, line } => {
            assert(ctx.lines.remove(index as int).insert(index as int, line) =~= ctx.lines);
            assert(ctx.line_styles.remove(index as int).insert(index as int, 0)
                =~= ctx.line_styles);
        },
        Command::AddLine { index, line } => {
            assert(ctx.lines.insert(index as int, line).remove(index as int) =~= ctx.lines);
            assert(ctx.line_styles.insert(index as int, 0).remove(index as int)
                =~= ctx.line_styles);
        },
        Command::RemoveDimension { index, dim } => {
            assert(ctx.dimensions.remove(index as int).insert(index as int, dim)
                =~= ctx.dimensions);
        },
        Command::AddDimension { index, dim } => {
            assert(ctx.dimensions.insert(index as int, dim).remove(index as int)
                =~= ctx.dimensions);
        },
        _ => {},
    }
}

/// Adds a point with style 0 at the end of the drawing.  The 3D view gets
/// `BackendAction::AddPoint(p)`.
pub fn spawn_point<P: Copy, D>(ctx: &mut Context<P, D>, p: P)
    ensures
        final(ctx)@ == (ContextView {
            points: old(ctx)@.points.push(p),
            point_styles: old(ctx)@.point_styles.push(0),
            ..old(ctx)@
        }),
{
    ctx.points.push(p);
    ctx.point_styles.push(0);
}

/// Adds both endpoints as points and the line between them, all with style
/// 0, at the end of the drawing.  The 3D view gets the two points and then
/// the line.
pub fn spawn_line<P: Copy, D>(ctx: &mut Context<P, D>, a: P, b: P)
    ensures
        final(ctx)@ == (ContextView {
            points: old(ctx)@.points.push(a).push(b),
            point_styles: old(ctx)@.point_styles.push(0).push(0),
            lines: old(ctx)@.lines.push((a, b)),
            line_styles: old(ctx)@.line_styles.push(0),
            ..old(ctx)@
        }),
{
    spawn_point(ctx, a);
    spawn_point(ctx, b);
    ctx.lines.push((a, b));
    ctx.line_styles.push(0);
}

/// The undo and redo stacks of the editor.
pub struct CommandStack<P, D, V> {
    undo: Vec<Command<P, D, V>>,
    redo: Vec<Command<P, D, V>>,
}

/// The two stacks as sequences, top last.
pub struct StackView<P, D, V> {
    pub undo: Seq<Command<P, D, V>>,
    pub redo: Seq<Command<P, D, V>>,
}

impl<P, D, V> View for CommandStack<P, D, V> {
    type V = StackView<P, D, V>;

    closed spec fn view(&self) -> StackView<P, D, V> {
        StackView { undo: self.undo@, redo: self.redo@ }
    }
}

/// The stacks and the drawing after an undo.
pub open spec fn undo_spec<P, D, V>(s: StackView<P, D, V>, ctx: ContextView<P, D>) -> (
    StackView<P, D, V>,
    ContextView<P, D>,
) {
    if s.undo.len() == 0 {
        (s, ctx)
    } else {
        (
            StackView { undo: s.undo.drop_last(), redo: s.redo.push(inverse(s.undo.last())) },
            apply_spec(s.undo.last(), ctx),
        )
    }
}

/// The stacks and the drawing after a redo.
pub open spec fn redo_spec<P, D, V>(s: StackView<P, D, V>, ctx: ContextView<P, D>) -> (
    StackView<P, D, V>,
    ContextView<P, D>,
) {
    if s.redo.len() == 0 {
        (s, ctx)
    } else {
        (
            StackView { undo: s.undo.push(inverse(s.redo.last())), redo: s.redo.drop_last() },
            apply_spec(s.redo.last(), ctx),
        )
    }
}

/// The stacks and the drawing after `n` undos in a row.
pub open spec fn undo_times<P, D, V>(s: StackView<P, D, V>, ctx: ContextView<P, D>, n: nat) -> (
    StackView<P, D, V>,
    ContextView<P, D>,
)
    decreases n,
{
    if n == 0 {
        (s, ctx)
    } else {
        let (s1, c1) = undo_spec(s, ctx);
        undo_times(s1, c1, (n - 1) as nat)
    }
}

/// Whether each of `n` undos in a row has a command to undo that can be
/// carried out.
pub open spec fn undos_applicable<P, D, V>(
    s: StackView<P, D, V>,
    ctx: ContextView<P, D>,
    n: nat,
) -> bool
    decreases n,
{
    n == 0 || (s.undo.len() > 0 && applicable(s.undo.last(), ctx) && {
        let (s1, c1) = undo_spec(s, ctx);
        undos_applicable(s1, c1, (n - 1) as nat)
    })
}

/// One more undo after `n` of them.
pub proof fn lemma_undo_times_last<P, D, V>(s: StackView<P, D, V>, ctx: ContextView<P, D>, n: nat)
    ensures
        undo_times(s, ctx, n + 1) == undo_spec(undo_times(s, ctx, n).0, undo_times(s, ctx, n).1),
        undos_applicable(s, ctx, n + 1) <==> (undos_applicable(s, ctx, n) && ({
            let (s2, c2) = undo_times(s, ctx, n);
            s2.undo.len() > 0 && applicable(s2.undo.last(), c2)
        })),
    decreases n,
{
    let (s1, c1) = undo_spec(s, ctx);
    assert(undo_times(s, ctx, n + 1) == undo_times(s1, c1, n));
    assert(undos_applicable(s, ctx, n + 1) == (s.undo.len() > 0 && applicable(s.undo.last(), ctx)
        && undos_applicable(s1, c1, n)));
    if n == 0 {
        assert(undo_times(s1, c1, 0) == (s1, c1));
        assert(undos_applicable(s1, c1, 0));
    } else {
        lemma_undo_times_last(s1, c1, (n - 1) as nat);
        assert(undo_times(s, ctx, n) == undo_times(s1, c1, (n - 1) as nat));
        assert(((n - 1) as nat) + 1 == n);
    }
}

impl<P: Copy, D: Copy, V: Copy> Default for CommandStack<P, D, V> {
    /// Empty stacks.
    fn default() -> (s: Self)
        ensures
            s@.undo == Seq::<Command<P, D, V>>::empty(),
            s@.redo == Seq::<Command<P, D, V>>::empty(),
    {
        Self::new()
    }
}

/// Whether the drawing has the places that `cmd` edits (see `applicable`).
pub fn command_applicable<P, D, V>(cmd: &Command<P, D, V>, ctx: &Context<P, D>) -> (r: bool)
    ensures
        r == applicable(*cmd, ctx@),
{
    match cmd {
        Command::RemovePoint { index, .. } => *index < ctx.points.len() && *index
            < ctx.point_styles.len(),
        Command::AddPoint { index, .. } => *index <= ctx.points.len() && *index
            <= ctx.point_styles.len(),
        Command::RemoveLine { index, .. } => *index < ctx.lines.len() && *index
            < ctx.line_styles.len(),
        Command::AddLine { index, .. } => *index <= ctx.lines.len() && *index
            <= ctx.line_styles.len(),
        Command::RemoveDimension { index, .. } => *index < ctx.dimensions.len(),
        Command::AddDimension { index, .. } => *index <= ctx.dimensions.len(),
        Command::TinDeleteVertex { .. } => true,
        Command::TinAddVertex { .. } => true,
    }
}

impl<P: Copy, D: Copy, V: Copy> CommandStack<P, D, V> {
    /// Empty stacks.
    pub fn new() -> (s: Self)
        ensures
            s@.undo == Seq::<Command<P, D, V>>::empty(),
            s@.redo == Seq::<Command<P, D, V>>::empty(),
    {
        CommandStack { undo: Vec::new(), redo: Vec::new() }
    }

    /// Records a command that has been carried out; whatever could be
    /// redone is dropped.
    pub fn push(&mut self, cmd: Command<P, D, V>)
        ensures
            final(self)@.undo == old(self)@.undo.push(cmd),
            final(self)@.redo == Seq::<Command<P, D, V>>::empty(),
    {
        self.undo.push(cmd);
        self.redo.clear();
    }

    /// Whether an undo can be carried out on `ctx`: there is nothing to
    /// undo, or the last command finds its places in the drawing.
    pub fn undo_ready(&self, ctx: &Context<P, D>) -> (r: bool)
        ensures
            r == (self@.undo.len() > 0 ==> applicable(self@.undo.last(), ctx@)),
    {
        let n = self.undo.len();
        if n == 0 {
            true
        } else {
            command_applicable(&self.undo[n - 1], ctx)
        }
    }

    /// Whether a redo can be carried out on `ctx`, likewise.
    pub fn redo_ready(&self, ctx: &Context<P, D>) -> (r: bool)
        ensures
            r == (self@.redo.len() > 0 ==> applicable(self@.redo.last(), ctx@)),
    {
        let n = self.redo.len();
        if n == 0 {
            true
        } else {
            command_applicable(&self.redo[n - 1], ctx)
        }
    }

    /// Undoes the last recorded command: the drawing is edited by it, its
    /// inverse goes on the redo stack, and what it asks of the 3D view is
    /// returned.  With nothing to undo, nothing changes.
    pub fn undo(&mut self, ctx: &mut Context<P, D>) -> (action: Option<BackendAction<P, D, V>>)
        requires
            old(self)@.undo.len() > 0 ==> applicable(old(self)@.undo.last(), old(ctx)@),
        ensures
            (final(self)@, final(ctx)@) == undo_spec(old(self)@, old(ctx)@),
            action == (if old(self)@.undo.len() == 0 {
                None
            } else {
                Some(backend_action_spec(old(self)@.undo.last()))
            }),
    {
        match self.undo.pop() {
            Some(cmd) => {
                let inv = apply_command(&cmd, ctx);
                self.redo.push(inv);
                Some(backend_action(&cmd))
            },
            None => None,
        }
    }

    /// Redoes the last undone command: the drawing is edited by it, its
    /// inverse goes back on the undo stack, and what it asks of the 3D view
    /// is returned.  With nothing to redo, nothing changes.
    pub fn redo(&mut self, ctx: &mut Context<P, D>) -> (action: Option<BackendAction<P, D, V>>)
        requires
            old(self)@.redo.len() > 0 ==> applicable(old(self)@.redo.last(), old(ctx)@),
        ensures
            (final(self)@, final(ctx)@) == redo_spec(old(self)@, old(ctx)@),
            action == (if old(self)@.redo.len() == 0 {
                None
            } else {
                Some(backend_action_spec(old(self)@.redo.last()))
            }),
    {
        match self.redo.pop() {
            Some(cmd) => {
                let inv = apply_command(&cmd, ctx);
                self.undo.push(inv);
                Some(backend_action(&cmd))
            },
            None => None,
        }
    }
}

/// Redoing right after an undo gives back the stacks and the drawing,
/// provided the undone command could be carried out and, if it removes
/// something, names what it removes.
pub proof fn law_redo_undoes_undo<P, D, V>(s: StackView<P, D, V>, ctx: ContextView<P, D>)
    requires
        s.undo.len() > 0,
        applicable(s.undo.last(), ctx),
        describes(s.undo.last(), ctx),
    ensures
        ({
            let (s1, c1) = undo_spec(s, ctx);
            &&& s1.redo.len() > 0
            &&& applicable(s1.redo.last(), c1)
            &&& redo_spec(s1, c1) == (s, ctx)
        }),
{
    let c = s.undo.last();
    law_apply_then_inverse_restores(c, ctx);
    law_inverse_involution(c);
    let (s1, c1) = undo_spec(s, ctx);
    assert(s1.redo.last() == inverse(c));
    assert(s1.undo.push(inverse(s1.redo.last())) =~= s.undo);
    assert(s1.redo.drop_last() =~= s.redo);
}

/// Undoing right after a redo gives back the stacks and the drawing, on the
/// same terms.
pub proof fn law_undo_undoes_redo<P, D, V>(s: StackView<P, D, V>, ctx: ContextView<P, D>)
    requires
        s.redo.len() > 0,
        applicable(s.redo.last(), ctx),
        describes(s.redo.last(), ctx),
    ensures
        ({
            let (s1, c1) = redo_spec(s, ctx);
            &&& s1.undo.len() > 0
            &&& applicable(s1.undo.last(), c1)
            &&& undo_spec(s1, c1) == (s, ctx)
        }),
{
    let c = s.redo.last();
    law_apply_then_inverse_restores(c, ctx);
    law_inverse_involution(c);
    let (s1, c1) = redo_spec(s, ctx);
    assert(s1.undo.last() == inverse(c));
    assert(s1.redo.push(inverse(s1.undo.last())) =~= s.redo);
    assert(s1.undo.drop_last() =~= s.undo);
}

/// After a command is recorded there is nothing to redo: a redo changes
/// neither the stacks nor the drawing.
pub proof fn law_push_clears_redo<P, D, V>(
    s: StackView<P, D, V>,
    cmd: Command<P, D, V>,
    ctx: ContextView<P, D>,
)
    ensures
        ({
            let pushed = StackView { undo: s.undo.push(cmd), redo: Seq::empty() };
            redo_spec(pushed, ctx) == (pushed, ctx)
        }),
{
}

/// Adds a point typed in the command line and records its removal for
/// undo.  The 3D view gets `BackendAction::AddPoint(p)`.
pub fn record_point<P: Copy, D: Copy, V: Copy>(
    stack: &mut CommandStack<P, D, V>,
    ctx: &mut Context<P, D>,
    p: P,
)
    ensures
        final(ctx)@ == (ContextView {
            points: old(ctx)@.points.push(p),
            point_styles: old(ctx)@.point_styles.push(0),
            ..old(ctx)@
        }),
        final(stack)@.undo == old(stack)@.undo.push(
            Command::RemovePoint { index: old(ctx)@.points.len() as usize, point: p },
        ),
        final(stack)@.redo == Seq::<Command<P, D, V>>::empty(),
{
    spawn_point(ctx, p);
    let index = ctx.points.len() - 1;
    stack.push(Command::RemovePoint { index, point: p });
}

/// Adds a line typed in the command line (with its two endpoints as
/// points) and records the line's removal for undo.
pub fn record_line<P: Copy, D: Copy, V: Copy>(
    stack: &mut CommandStack<P, D, V>,
    ctx: &mut Context<P, D>,
    a: P,
    b: P,
)
    ensures
        final(ctx)@ == (ContextView {
            points: old(ctx)@.points.push(a).push(b),
            point_styles: old(ctx)@.point_styles.push(0).push(0),
            lines: old(ctx)@.lines.push((a, b)),
            line_styles: old(ctx)@.line_styles.push(0),
            ..old(ctx)@
        }),
        final(stack)@.undo == old(stack)@.undo.push(
            Command::RemoveLine { index: old(ctx)@.lines.len() as usize, line: (a, b) },
        ),
        final(stack)@.redo == Seq::<Command<P, D, V>>::empty(),
{
    spawn_line(ctx, a, b);
    let index = ctx.lines.len() - 1;
    stack.push(Command::RemoveLine { index, line: (a, b) });
}

/// Undoing right after a point was typed in takes it away again, when the
/// point and style columns were of the same length.
pub proof fn law_undo_takes_back_recorded_point<P, D, V>(
    s: StackView<P, D, V>,
    ctx: ContextView<P, D>,
    p: P,
)
    requires
        ctx.points.len() == ctx.point_styles.len(),
        ctx.points.len() <= usize::MAX,
    ensures
        ({
            let c1 = ContextView {
                points: ctx.points.push(p),
                point_styles: ctx.point_styles.push(0),
                ..ctx
            };
            let s1 = StackView {
                undo: s.undo.push(Command::RemovePoint { index: ctx.points.len() as usize, point: p }),
                redo: Seq::<Command<P, D, V>>::empty(),
            };
            &&& applicable(s1.undo.last(), c1)
            &&& undo_spec(s1, c1).1 == ctx
        }),
{
    let c1 = ContextView { points: ctx.points.push(p), point_styles: ctx.point_styles.push(0), ..ctx };
    let i = ctx.points.len() as int;
    assert(c1.points.remove(i) =~= ctx.points);
    assert(c1.point_styles.remove(i) =~= ctx.point_styles);
}

/// Whether `after` is `before` with `x` put in at some position.
pub open spec fn inserted<T>(before: Seq<T>, after: Seq<T>, x: T) -> bool {
    exists|k: int| 0 <= k <= before.len() && after == #[trigger] before.insert(k, x)
}

/// Whether the request `act` to the 3D view edits the same kind of
/// element, at the same place or with the same value, as the drawing edit
/// from `before` to `after`: a removal of the point, line or dimension at
/// `i` is asked of the view as the removal of the element of that kind at
/// `i`, and leaves the other kinds alone; an addition is asked as the
/// addition of the element that the drawing gained, of the same kind; the
/// surface requests go with a drawing left as it is.
pub open spec fn mirrors<P, D, V>(
    act: BackendAction<P, D, V>,
    before: ContextView<P, D>,
    after: ContextView<P, D>,
) -> bool {
    match act {
        BackendAction::RemovePoint(i) => {
            &&& i < before.points.len()
            &&& after.points == before.points.remove(i as int)
            &&& after.lines == before.lines
            &&& after.dimensions == before.dimensions
        },
        BackendAction::AddPoint(p) => {
            &&& inserted(before.points, after.points, p)
            &&& after.lines == before.lines
            &&& after.dimensions == before.dimensions
        },
        BackendAction::RemoveLine(i) => {
            &&& i < before.lines.len()
            &&& after.lines == before.lines.remove(i as int)
            &&& after.points == before.points
            &&& after.dimensions == before.dimensions
        },
        BackendAction::AddLine(a, b) => {
            &&& inserted(before.lines, after.lines, (a, b))
            &&& after.points == before.points
            &&& after.dimensions == before.dimensions
        },
        BackendAction::RemoveDimension(i) => {
            &&& i < before.dimensions.len()
            &&& after.dimensions == before.dimensions.remove(i as int)
            &&& after.points == before.points
            &&& after.lines == before.lines
        },
        BackendAction::AddDimension(d) => {
            &&& inserted(before.dimensions, after.dimensions, d)
            &&& after.points == before.points
            &&& after.lines == before.lines
        },
        BackendAction::DeleteVertex(..) => after == before,
        BackendAction::AddVertex(..) => after == before,
    }
}

/// What a command asks of the 3D view mirrors what it does to the drawing
/// (see `mirrors`), for every command that can be carried out.
pub proof fn law_view_edit_mirrors_drawing_edit<P, D, V>(
    cmd: Command<P, D, V>,
    ctx: ContextView<P, D>,
)
    requires
        applicable(cmd, ctx),
    ensures
        mirrors(backend_action_spec(cmd), ctx, apply_spec(cmd, ctx)),
{
    let after = apply_spec(cmd, ctx);
    match cmd {
        Command::AddPoint { index, point } => {
            assert(inserted(ctx.points, after.points, point));
        },
        Command::AddLine { index, line } => {
            assert(line == (line.0, line.1));
            assert(inserted(ctx.lines, after.lines, line));
        },
        Command::AddDimension { index, dim } => {
            assert(inserted(ctx.dimensions, after.dimensions, dim));
        },
        _ => {},
    }
}

/// What an undo asks of the 3D view mirrors what it does to the drawing,
/// whenever there is a command to undo that can be carried out.
pub proof fn law_undo_view_edit_mirrors_drawing_edit<P, D, V>(
    s: StackView<P, D, V>,
    ctx: ContextView<P, D>,
)
    requires
        s.undo.len() > 0,
        applicable(s.undo.last(), ctx),
    ensures
        mirrors(backend_action_spec(s.undo.last()), ctx, undo_spec(s, ctx).1),
{
    law_view_edit_mirrors_drawing_edit(s.undo.last(), ctx);
}

/// What a redo asks of the 3D view mirrors what it does to the drawing,
/// likewise.
pub proof fn law_redo_view_edit_mirrors_drawing_edit<P, D, V>(
    s: StackView<P, D, V>,
    ctx: ContextView<P, D>,
)
    requires
        s.redo.len() > 0,
        applicable(s.redo.last(), ctx),
    ensures
        mirrors(backend_action_spec(s.redo.last()), ctx, redo_spec(s, ctx).1),
{
    law_view_edit_mirrors_drawing_edit(s.redo.last(), ctx);
}

/// Undoing right after a line was typed in takes the line away again and
/// asks the 3D view to remove that line, when the line and style columns
/// were of the same length.
pub proof fn law_undo_takes_back_recorded_line<P, D, V>(
    s: StackView<P, D, V>,
    ctx: ContextView<P, D>,
    a: P,
    b: P,
)
    requires
        ctx.lines.len() == ctx.line_styles.len(),
        ctx.lines.len() < usize::MAX,
    ensures
        ({
            let c1 = ContextView {
                points: ctx.points.push(a).push(b),
                point_styles: ctx.point_styles.push(0).push(0),
                lines: ctx.lines.push((a, b)),
                line_styles: ctx.line_styles.push(0),
                ..ctx
            };
            let s1 = StackView {
                undo: s.undo.push(
                    Command::RemoveLine { index: ctx.lines.len() as usize, line: (a, b) },
                ),
                redo: Seq::<Command<P, D, V>>::empty(),
            };
            &&& applicable(s1.undo.last(), c1)
            &&& undo_spec(s1, c1).1.lines == ctx.lines
            &&& backend_action_spec(s1.undo.last()) == BackendAction::<P, D, V>::RemoveLine(
                ctx.lines.len() as usize,
            )
        }),
{
    let i = ctx.lines.len() as int;
    assert(ctx.lines.push((a, b)).remove(i) =~= ctx.lines);
}

/// Assigns the macro `name` to quick-script slot `slot`, growing the list
/// of slots with empty names as needed.
pub fn assign_quick_script(scripts: &mut Vec<String>, slot: usize, name: String)
    requires
        slot < usize::MAX,
    ensures
        final(scripts)@.len() == (if slot < old(scripts)@.len() {
            old(scripts)@.len() as int
        } else {
            slot + 1
        }),
        final(scripts)@[slot as int] == name,
        forall|i: int| 0 <= i < old(scripts)@.len() && i != slot ==> #[trigger] final(scripts)@[i] == old(scripts)@[i],
        forall|i: int| old(scripts)@.len() <= i < final(scripts)@.len() && i != slot ==> (#[trigger] final(scripts)@[i])@ == Seq::<char>::empty(),
{
    crate::inspector::pad_texts_to_index(scripts, slot);
    scripts.set(slot, name);
}

/// Whether the name ends with `.py`: a Python script rather than a
/// recorded macro.
pub open spec fn python_name(name: Seq<char>) -> bool {
    name.len() >= 3 && name.subrange(name.len() - 3, name.len() as int) == ".py"@
}

/// What a quick-script slot runs.
pub enum ScriptRun {
    Nothing,
    Python(String),
    Macro(String),
}

/// What running quick-script slot `slot` does: nothing for a slot beyond
/// the list or with an empty name, else the Python script or the macro
/// file of that name.
pub open spec fn script_run_spec(scripts: Seq<Seq<char>>, slot: usize) -> (Option<bool>, Seq<char>) {
    if slot >= scripts.len() || scripts[slot as int].len() == 0 {
        (None, Seq::empty())
    } else {
        (Some(python_name(scripts[slot as int])), scripts[slot as int])
    }
}

fn ends_with_py(name: &str) -> (r: bool)
    ensures
        r == python_name(name@),
{
    let n = name.unicode_len();
    proof {
        reveal_strlit(".py");
    }
    if n < 3 {
        return false;
    }
    let r = name.get_char(n - 3) == '.' && name.get_char(n - 2) == 'p' && name.get_char(n - 1)
        == 'y';
    let ghost sub = name@.subrange(n - 3, n as int);
    assert(".py"@ =~= seq!['.', 'p', 'y']);
    assert(sub[0] == name@[n - 3] && sub[1] == name@[n - 2] && sub[2] == name@[n - 1]);
    if r {
        assert(sub =~= ".py"@);
    } else {
        assert(sub != ".py"@);
    }
    r
}

/// What running quick-script slot `slot` does (see `script_run_spec`).
pub fn script_to_run(scripts: &Vec<String>, slot: usize) -> (r: ScriptRun)
    ensures
        ({
            let (kind, name) = script_run_spec(scripts@.map_values(|w: String| w@), slot);
            match r {
                ScriptRun::Nothing => kind is None,
                ScriptRun::Python(n) => kind == Some(true) && n@ == name,
                ScriptRun::Macro(n) => kind == Some(false) && n@ == name,
            }
        }),
{
    if slot >= scripts.len() {
        return ScriptRun::Nothing;
    }
    let name = scripts[slot].as_str();
    if name.unicode_len() == 0 {
        return ScriptRun::Nothing;
    }
    if ends_with_py(name) {
        ScriptRun::Python(name.to_string())
    } else {
        ScriptRun::Macro(name.to_string())
    }
}

} // verus!
