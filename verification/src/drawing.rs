use vstd::prelude::*;
use crate::command_line::text_is;

verus! {

/// The drawing tool that clicks in the 2D workspace feed.  `P` is the point
/// type and `R` a radius typed in for a start-end-radius arc.  Where a tool
/// needs a distance or an angle it keeps the clicked point that the
/// measurement is taken to; the measurement is made when the finished shape
/// is built (see `DrawAction`).
pub enum DrawingMode<P, R> {
    /// No tool is active.
    Idle,
    Line { start: Option<P> },
    Polygon { vertices: Vec<P> },
    /// Center first, then a point at the radius, then the start and the end
    /// of the arc, each given by a point whose direction from the center
    /// makes the angle.
    ArcCenter { center: Option<P>, radius_at: Option<P>, start_at: Option<P> },
    ArcThreePoint { p1: Option<P>, p2: Option<P> },
    /// Start and end; the radius is the one typed in, or else the distance
    /// from the start to the third click.
    ArcStartEndRadius { start: Option<P>, end: Option<P>, radius: Option<R> },
    Dimension { start: Option<P> },
}

/// A drawing tool as a mathematical value.
pub enum ModeView<P, R> {
    Idle,
    Line { start: Option<P> },
    Polygon { vertices: Seq<P> },
    ArcCenter { center: Option<P>, radius_at: Option<P>, start_at: Option<P> },
    ArcThreePoint { p1: Option<P>, p2: Option<P> },
    ArcStartEndRadius { start: Option<P>, end: Option<P>, radius: Option<R> },
    Dimension { start: Option<P> },
}

impl<P, R> View for DrawingMode<P, R> {
    type V = ModeView<P, R>;

    open spec fn view(&self) -> ModeView<P, R> {
        match self {
            DrawingMode::Idle => ModeView::Idle,
            DrawingMode::Line { start } => ModeView::Line { start: *start },
            DrawingMode::Polygon { vertices } => ModeView::Polygon { vertices: vertices@ },
            DrawingMode::ArcCenter { center, radius_at, start_at } => ModeView::ArcCenter {
                center: *center,
                radius_at: *radius_at,
                start_at: *start_at,
            },
            DrawingMode::ArcThreePoint { p1, p2 } => ModeView::ArcThreePoint { p1: *p1, p2: *p2 },
            DrawingMode::ArcStartEndRadius { start, end, radius } => ModeView::ArcStartEndRadius {
                start: *start,
                end: *end,
                radius: *radius,
            },
            DrawingMode::Dimension { start } => ModeView::Dimension { start: *start },
        }
    }
}

/// What a click asks of the workspace once a shape is complete.
pub enum DrawAction<P, R> {
    Nothing,
    AddLine(P, P),
    AddDimension(P, P),
    AddPolygon(Vec<P>),
    /// The arc around `center` with the radius to `radius_at`, from the
    /// direction of `start_at` to that of `end_at`.
    ArcByCenter { center: P, radius_at: P, start_at: P, end_at: P },
    /// The arc through three points, where they make one.
    ArcThroughPoints(P, P, P),
    /// The arc from `start` to `end` with the typed radius, or else the
    /// distance from `start` to `through`, bulging towards `through`.
    ArcStartEndRadius { start: P, end: P, radius: Option<R>, through: P },
}

/// A drawing action as a mathematical value.
pub enum ActionView<P, R> {
    Nothing,
    AddLine(P, P),
    AddDimension(P, P),
    AddPolygon(Seq<P>),
    ArcByCenter { center: P, radius_at: P, start_at: P, end_at: P },
    ArcThroughPoints(P, P, P),
    ArcStartEndRadius { start: P, end: P, radius: Option<R>, through: P },
}

impl<P, R> View for DrawAction<P, R> {
    type V = ActionView<P, R>;

    open spec fn view(&self) -> ActionView<P, R> {
        match self {
            DrawAction::Nothing => ActionView::Nothing,
            DrawAction::AddLine(a, b) => ActionView::AddLine(*a, *b),
            DrawAction::AddDimension(a, b) => ActionView::AddDimension(*a, *b),
            DrawAction::AddPolygon(v) => ActionView::AddPolygon(v@),
            DrawAction::ArcByCenter { center, radius_at, start_at, end_at } =>
                ActionView::ArcByCenter {
                center: *center,
                radius_at: *radius_at,
                start_at: *start_at,
                end_at: *end_at,
            },
            DrawAction::ArcThroughPoints(a, b, c) => ActionView::ArcThroughPoints(*a, *b, *c),
            DrawAction::ArcStartEndRadius { start, end, radius, through } =>
                ActionView::ArcStartEndRadius {
                start: *start,
                end: *end,
                radius: *radius,
                through: *through,
            },
        }
    }
}

/// A press of the left button at `p` while a tool is active.  Each press
/// fills the next missing point of the tool; the press that completes a
/// shape hands it out and ends the tool.  A polygon takes a point per press
/// and is completed by a double press once it has three or more points:
/// it is then handed out closed, its first point repeated at the end.
pub open spec fn press_spec<P, R>(m: ModeView<P, R>, p: P, double: bool) -> (
    ModeView<P, R>,
    ActionView<P, R>,
) {
    match m {
        ModeView::Idle => (m, ActionView::Nothing),
        ModeView::Line { start } => match start {
            None => (ModeView::Line { start: Some(p) }, ActionView::Nothing),
            Some(s) => (ModeView::Idle, ActionView::AddLine(s, p)),
        },
        ModeView::Dimension { start } => match start {
            None => (ModeView::Dimension { start: Some(p) }, ActionView::Nothing),
            Some(s) => (ModeView::Idle, ActionView::AddDimension(s, p)),
        },
        ModeView::Polygon { vertices } => {
            let vs = vertices.push(p);
            if double && vs.len() > 2 {
                (ModeView::Idle, ActionView::AddPolygon(vs.push(vs[0])))
            } else {
                (ModeView::Polygon { vertices: vs }, ActionView::Nothing)
            }
        },
        ModeView::ArcCenter { center, radius_at, start_at } => match (center, radius_at, start_at) {
            (None, _, _) => (ModeView::ArcCenter { center: Some(p), radius_at, start_at }, ActionView::Nothing),
            (Some(c), None, _) => (
                ModeView::ArcCenter { center, radius_at: Some(p), start_at },
                ActionView::Nothing,
            ),
            (Some(c), Some(r), None) => (
                ModeView::ArcCenter { center, radius_at, start_at: Some(p) },
                ActionView::Nothing,
            ),
            (Some(c), Some(r), Some(s)) => (
                ModeView::Idle,
                ActionView::ArcByCenter { center: c, radius_at: r, start_at: s, end_at: p },
            ),
        },
        ModeView::ArcThreePoint { p1, p2 } => match (p1, p2) {
            (None, _) => (ModeView::ArcThreePoint { p1: Some(p), p2 }, ActionView::Nothing),
            (Some(a), None) => (ModeView::ArcThreePoint { p1, p2: Some(p) }, ActionView::Nothing),
            (Some(a), Some(b)) => (ModeView::Idle, ActionView::ArcThroughPoints(a, b, p)),
        },
        ModeView::ArcStartEndRadius { start, end, radius } => match (start, end, radius) {
            (None, _, _) => (
                ModeView::ArcStartEndRadius { start: Some(p), end, radius },
                ActionView::Nothing,
            ),
            (Some(s), None, _) => (
                ModeView::ArcStartEndRadius { start, end: Some(p), radius },
                ActionView::Nothing,
            ),
            (Some(s), Some(e), None) => (
                ModeView::Idle,
                ActionView::ArcStartEndRadius { start: s, end: e, radius: None, through: p },
            ),
            (Some(s), Some(e), Some(r)) => (m, ActionView::Nothing),
        },
    }
}

/// A click at `p` that completes a shape whose other points are already
/// there; it never starts one.  A polygon takes the point and, on a double
/// click with three or more points, is handed out as it stands (not
/// closed).
pub open spec fn click_spec<P, R>(m: ModeView<P, R>, p: P, double: bool) -> (
    ModeView<P, R>,
    ActionView<P, R>,
) {
    match m {
        ModeView::Line { start: Some(s) } => (ModeView::Idle, ActionView::AddLine(s, p)),
        ModeView::Polygon { vertices } => {
            let vs = vertices.push(p);
            if double && vs.len() > 2 {
                (ModeView::Idle, ActionView::AddPolygon(vs))
            } else {
                (ModeView::Polygon { vertices: vs }, ActionView::Nothing)
            }
        },
        ModeView::ArcCenter { center: Some(c), radius_at: Some(r), start_at: Some(s) } => (
            ModeView::Idle,
            ActionView::ArcByCenter { center: c, radius_at: r, start_at: s, end_at: p },
        ),
        ModeView::ArcThreePoint { p1: Some(a), p2: Some(b) } => (
            ModeView::Idle,
            ActionView::ArcThroughPoints(a, b, p),
        ),
        ModeView::ArcStartEndRadius { start: Some(s), end: Some(e), radius } => (
            ModeView::Idle,
            ActionView::ArcStartEndRadius { start: s, end: e, radius, through: p },
        ),
        _ => (m, ActionView::Nothing),
    }
}

/// The finishing key: a polygon with three or more points is handed out
/// closed and the tool ends; anything else stays as it is.
pub open spec fn finish_spec<P, R>(m: ModeView<P, R>) -> (ModeView<P, R>, ActionView<P, R>) {
    match m {
        ModeView::Polygon { vertices } => if vertices.len() > 2 {
            (ModeView::Idle, ActionView::AddPolygon(vertices.push(vertices[0])))
        } else {
            (m, ActionView::Nothing)
        },
        _ => (m, ActionView::Nothing),
    }
}

impl<P: Copy, R: Copy> DrawingMode<P, R> {
    /// A press of the left button at `p` (see `press_spec`); `double` says
    /// whether it follows the previous press closely enough to count as a
    /// double press.
    pub fn press(&mut self, p: P, double: bool) -> (a: DrawAction<P, R>)
        ensures
            (final(self)@, a@) == press_spec(old(self)@, p, double),
    {
        let mut m = DrawingMode::Idle;
        std::mem::swap(&mut m, self);
        match m {
            DrawingMode::Idle => DrawAction::Nothing,
            DrawingMode::Line { start } => match start {
                None => {
                    *self = DrawingMode::Line { start: Some(p) };
                    DrawAction::Nothing
                },
                Some(s) => DrawAction::AddLine(s, p),
            },
            DrawingMode::Dimension { start } => match start {
                None => {
                    *self = DrawingMode::Dimension { start: Some(p) };
                    DrawAction::Nothing
                },
                Some(s) => DrawAction::AddDimension(s, p),
            },
            DrawingMode::Polygon { vertices } => {
                let mut vs = vertices;
                vs.push(p);
                if double && vs.len() > 2 {
                    let first = vs[0];
                    vs.push(first);
                    DrawAction::AddPolygon(vs)
                } else {
                    *self = DrawingMode::Polygon { vertices: vs };
                    DrawAction::Nothing
                }
            },
            DrawingMode::ArcCenter { center, radius_at, start_at } => match (
                center,
                radius_at,
                start_at,
            ) {
                (None, _, _) => {
                    *self = DrawingMode::ArcCenter { center: Some(p), radius_at, start_at };
                    DrawAction::Nothing
                },
                (Some(_), None, _) => {
                    *self = DrawingMode::ArcCenter { center, radius_at: Some(p), start_at };
                    DrawAction::Nothing
                },
                (Some(_), Some(_), None) => {
                    *self = DrawingMode::ArcCenter { center, radius_at, start_at: Some(p) };
                    DrawAction::Nothing
                },
                (Some(c), Some(r), Some(s)) => DrawAction::ArcByCenter {
                    center: c,
                    radius_at: r,
                    start_at: s,
                    end_at: p,
                },
            },
            DrawingMode::ArcThreePoint { p1, p2 } => match (p1, p2) {
                (None, _) => {
                    *self = DrawingMode::ArcThreePoint { p1: Some(p), p2 };
                    DrawAction::Nothing
                },
                (Some(_), None) => {
                    *self = DrawingMode::ArcThreePoint { p1, p2: Some(p) };
                    DrawAction::Nothing
                },
                (Some(a), Some(b)) => DrawAction::ArcThroughPoints(a, b, p),
            },
            DrawingMode::ArcStartEndRadius { start, end, radius } => match (start, end, radius) {
                (None, _, _) => {
                    *self = DrawingMode::ArcStartEndRadius { start: Some(p), end, radius };
                    DrawAction::Nothing
                },
                (Some(_), None, _) => {
                    *self = DrawingMode::ArcStartEndRadius { start, end: Some(p), radius };
                    DrawAction::Nothing
                },
                (Some(s), Some(e), None) => DrawAction::ArcStartEndRadius {
                    start: s,
                    end: e,
                    radius: None,
                    through: p,
                },
                (Some(_), Some(_), Some(_)) => {
                    *self = DrawingMode::ArcStartEndRadius { start, end, radius };
                    DrawAction::Nothing
                },
            },
        }
    }

    /// A click at `p` that completes the shape in progress (see
    /// `click_spec`); `double` as for `press`.
    pub fn click(&mut self, p: P, double: bool) -> (a: DrawAction<P, R>)
        ensures
            (final(self)@, a@) == click_spec(old(self)@, p, double),
    {
        let mut m = DrawingMode::Idle;
        std::mem::swap(&mut m, self);
        match m {
            DrawingMode::Line { start: Some(s) } => DrawAction::AddLine(s, p),
            DrawingMode::Polygon { vertices } => {
                let mut vs = vertices;
                vs.push(p);
                if double && vs.len() > 2 {
                    DrawAction::AddPolygon(vs)
                } else {
                    *self = DrawingMode::Polygon { vertices: vs };
                    DrawAction::Nothing
                }
            },
            DrawingMode::ArcCenter { center: Some(c), radius_at: Some(r), start_at: Some(s) } =>
                DrawAction::ArcByCenter { center: c, radius_at: r, start_at: s, end_at: p },
            DrawingMode::ArcThreePoint { p1: Some(a), p2: Some(b) } => DrawAction::ArcThroughPoints(
                a,
                b,
                p,
            ),
            DrawingMode::ArcStartEndRadius { start: Some(s), end: Some(e), radius } =>
                DrawAction::ArcStartEndRadius { start: s, end: e, radius, through: p },
            other => {
                *self = other;
                DrawAction::Nothing
            },
        }
    }

    /// The finishing key (see `finish_spec`).
    pub fn finish(&mut self) -> (a: DrawAction<P, R>)
        ensures
            (final(self)@, a@) == finish_spec(old(self)@),
    {
        let mut m = DrawingMode::Idle;
        std::mem::swap(&mut m, self);
        match m {
            DrawingMode::Polygon { vertices } => {
                if vertices.len() > 2 {
                    let mut vs = vertices;
                    let first = vs[0];
                    vs.push(first);
                    DrawAction::AddPolygon(vs)
                } else {
                    *self = DrawingMode::Polygon { vertices };
                    DrawAction::Nothing
                }
            },
            other => {
                *self = other;
                DrawAction::Nothing
            },
        }
    }
}

/// What a key pressed in the workspace asks for.
pub enum KeyCommand {
    Undo,
    Redo,
    /// End the drawing tool without a shape.
    Cancel,
    /// Complete the polygon in progress (see `finish_spec`).
    Finish,
    /// Run the quick script in the given slot.
    QuickScript(usize),
    Ignore,
}

/// The key bindings: Ctrl-Z undoes, Ctrl-Y redoes, Escape cancels the
/// tool, Enter finishes a polygon and F5, F6, F7 run the quick scripts of
/// the first three slots.
pub open spec fn key_command_spec(k: Seq<char>) -> KeyCommand {
    if k == "\u{001a}"@ {
        KeyCommand::Undo
    } else if k == "\u{0019}"@ {
        KeyCommand::Redo
    } else if k == "\u{001b}"@ {
        KeyCommand::Cancel
    } else if k == "\u{000a}"@ {
        KeyCommand::Finish
    } else if k == "F5"@ {
        KeyCommand::QuickScript(0)
    } else if k == "F6"@ {
        KeyCommand::QuickScript(1)
    } else if k == "F7"@ {
        KeyCommand::QuickScript(2)
    } else {
        KeyCommand::Ignore
    }
}

/// What the key `key` asks for (see `key_command_spec`).
pub fn key_command(key: &str) -> (c: KeyCommand)
    ensures
        c == key_command_spec(key@),
{
    if text_is(key, "\u{001a}") {
        KeyCommand::Undo
    } else if text_is(key, "\u{0019}") {
        KeyCommand::Redo
    } else if text_is(key, "\u{001b}") {
        KeyCommand::Cancel
    } else if text_is(key, "\u{000a}") {
        KeyCommand::Finish
    } else if text_is(key, "F5") {
        KeyCommand::QuickScript(0)
    } else if text_is(key, "F6") {
        KeyCommand::QuickScript(1)
    } else if text_is(key, "F7") {
        KeyCommand::QuickScript(2)
    } else {
        KeyCommand::Ignore
    }
}

/// Two presses with the line tool draw one line, from the first press to
/// the second, and end the tool.
pub proof fn law_line_takes_two_presses<P, R>(a: P, b: P, d1: bool, d2: bool)
    ensures
        ({
            let (m1, x1) = press_spec(ModeView::<P, R>::Line { start: None }, a, d1);
            let (m2, x2) = press_spec(m1, b, d2);
            &&& x1 == ActionView::<P, R>::Nothing
            &&& m2 == ModeView::<P, R>::Idle
            &&& x2 == ActionView::<P, R>::AddLine(a, b)
        }),
{
}

/// Two presses with the dimension tool measure from the first press to the
/// second, and end the tool.
pub proof fn law_dimension_takes_two_presses<P, R>(a: P, b: P, d1: bool, d2: bool)
    ensures
        ({
            let (m1, x1) = press_spec(ModeView::<P, R>::Dimension { start: None }, a, d1);
            let (m2, x2) = press_spec(m1, b, d2);
            &&& x1 == ActionView::<P, R>::Nothing
            &&& m2 == ModeView::<P, R>::Idle
            &&& x2 == ActionView::<P, R>::AddDimension(a, b)
        }),
{
}

/// Four presses with the center-start-end arc tool give the center, the
/// radius point, the start and the end, in that order, and end the tool.
pub proof fn law_center_arc_takes_four_presses<P, R>(c: P, r: P, s: P, e: P, d: bool)
    ensures
        ({
            let m0 = ModeView::<P, R>::ArcCenter { center: None, radius_at: None, start_at: None };
            let (m1, x1) = press_spec(m0, c, d);
            let (m2, x2) = press_spec(m1, r, d);
            let (m3, x3) = press_spec(m2, s, d);
            let (m4, x4) = press_spec(m3, e, d);
            &&& x1 == ActionView::<P, R>::Nothing
            &&& x2 == ActionView::<P, R>::Nothing
            &&& x3 == ActionView::<P, R>::Nothing
            &&& m4 == ModeView::<P, R>::Idle
            &&& x4 == ActionView::<P, R>::ArcByCenter {
                center: c,
                radius_at: r,
                start_at: s,
                end_at: e,
            }
        }),
{
}

/// Three presses with the three-point arc tool give the arc through them,
/// in press order, and end the tool.
pub proof fn law_three_point_arc_takes_three_presses<P, R>(a: P, b: P, c: P, d: bool)
    ensures
        ({
            let m0 = ModeView::<P, R>::ArcThreePoint { p1: None, p2: None };
            let (m1, x1) = press_spec(m0, a, d);
            let (m2, x2) = press_spec(m1, b, d);
            let (m3, x3) = press_spec(m2, c, d);
            &&& x1 == ActionView::<P, R>::Nothing
            &&& x2 == ActionView::<P, R>::Nothing
            &&& m3 == ModeView::<P, R>::Idle
            &&& x3 == ActionView::<P, R>::ArcThroughPoints(a, b, c)
        }),
{
}

/// Three presses with the start-end-radius arc tool (no radius typed in)
/// give start, end and the point that sets the radius, and end the tool.
pub proof fn law_start_end_arc_takes_three_presses<P, R>(s: P, e: P, t: P, d: bool)
    ensures
        ({
            let m0 = ModeView::<P, R>::ArcStartEndRadius { start: None, end: None, radius: None };
            let (m1, x1) = press_spec(m0, s, d);
            let (m2, x2) = press_spec(m1, e, d);
            let (m3, x3) = press_spec(m2, t, d);
            &&& x1 == ActionView::<P, R>::Nothing
            &&& x2 == ActionView::<P, R>::Nothing
            &&& m3 == ModeView::<P, R>::Idle
            &&& x3 == ActionView::<P, R>::ArcStartEndRadius {
                start: s,
                end: e,
                radius: None,
                through: t,
            }
        }),
{
}

/// Whatever the tool, a press, a click or the finishing key that hands out
/// a shape also ends the tool.
pub proof fn law_completed_shape_ends_tool<P, R>(m: ModeView<P, R>, p: P, double: bool)
    ensures
        press_spec(m, p, double).1 != ActionView::<P, R>::Nothing ==> press_spec(m, p, double).0
            == ModeView::<P, R>::Idle,
        click_spec(m, p, double).1 != ActionView::<P, R>::Nothing ==> click_spec(m, p, double).0
            == ModeView::<P, R>::Idle,
        finish_spec(m).1 != ActionView::<P, R>::Nothing ==> finish_spec(m).0
            == ModeView::<P, R>::Idle,
{
}

/// A polygon handed out by a press or by the finishing key is closed: it
/// has at least three points and its last point repeats its first.
pub proof fn law_polygon_is_closed<P, R>(m: ModeView<P, R>, p: P, double: bool)
    ensures
        press_spec(m, p, double).1 matches ActionView::AddPolygon(vs) ==> vs.len() >= 4
            && vs.last() == vs[0],
        finish_spec(m).1 matches ActionView::AddPolygon(vs) ==> vs.len() >= 4 && vs.last()
            == vs[0],
{
}

/// For every tool but the polygon, a click that completes a shape hands out
/// the same shape, and leaves the tool in the same state, as a press at the
/// same point does wherever a press completes it too; a click that
/// completes nothing changes nothing.
pub proof fn law_click_completes_as_press<P, R>(m: ModeView<P, R>, p: P, double: bool)
    requires
        !(m is Polygon),
    ensures
        press_spec(m, p, double).1 != ActionView::<P, R>::Nothing && click_spec(m, p, double).1
            != ActionView::<P, R>::Nothing ==> click_spec(m, p, double) == press_spec(
            m,
            p,
            double,
        ),
        click_spec(m, p, double).1 == ActionView::<P, R>::Nothing ==> click_spec(m, p, double).0
            == m,
{
}

/// Pressing the first points of a shape and clicking the last one draws
/// the shape through the points in the order they were given: a line from
/// the press to the click, the arc through the two presses and the click,
/// the arc around the first press with the radius to the second, from the
/// third towards the click, and the arc from the first press to the second
/// with the typed radius (or else through the click).
pub proof fn law_presses_then_click_draw_in_order<P, R>(
    a: P,
    b: P,
    c: P,
    e: P,
    r: Option<R>,
    d: bool,
)
    ensures
        ({
            let (m1, _) = press_spec(ModeView::<P, R>::Line { start: None }, a, d);
            click_spec(m1, b, d) == (ModeView::<P, R>::Idle, ActionView::<P, R>::AddLine(a, b))
        }),
        ({
            let (m1, _) = press_spec(ModeView::<P, R>::ArcThreePoint { p1: None, p2: None }, a, d);
            let (m2, _) = press_spec(m1, b, d);
            click_spec(m2, c, d) == (
                ModeView::<P, R>::Idle,
                ActionView::<P, R>::ArcThroughPoints(a, b, c),
            )
        }),
        ({
            let m0 = ModeView::<P, R>::ArcCenter { center: None, radius_at: None, start_at: None };
            let (m1, _) = press_spec(m0, a, d);
            let (m2, _) = press_spec(m1, b, d);
            let (m3, _) = press_spec(m2, c, d);
            click_spec(m3, e, d) == (
                ModeView::<P, R>::Idle,
                ActionView::<P, R>::ArcByCenter { center: a, radius_at: b, start_at: c, end_at: e },
            )
        }),
        ({
            let m0 = ModeView::<P, R>::ArcStartEndRadius { start: None, end: None, radius: r };
            let (m1, _) = press_spec(m0, a, d);
            let (m2, _) = press_spec(m1, b, d);
            click_spec(m2, c, d) == (
                ModeView::<P, R>::Idle,
                ActionView::<P, R>::ArcStartEndRadius { start: a, end: b, radius: r, through: c },
            )
        }),
{
}

} // verus!
