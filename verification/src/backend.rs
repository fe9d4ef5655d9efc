use vstd::prelude::*;

use crate::geometry::{remove_if_present, GeometryStore, GeometryView};
use crate::mesh::Triangle;

verus! {

/// What a pick in the 3D view hit.
#[derive(Clone, Copy, PartialEq, Eq, Structural)]
pub enum HitObject {
    Point(usize),
    Line(usize),
    Surface(usize),
    Handle(usize),
    Breakline,
    Boundary,
}

/// The kind of transformation a gizmo applies.
#[derive(Clone, Copy, Debug, PartialEq, Eq, Structural)]
pub enum GizmoMode {
    Translate,
    Rotate,
    Scale,
}

/// What the editing handles on screen belong to.
#[derive(Clone, Copy, PartialEq, Eq, Structural)]
pub enum HandleTarget {
    Point(usize),
    Line(usize),
    Surface(usize),
    AlignmentPi,
    VerticalVertex,
    Gizmo(GizmoMode, HitObject),
}

/// A coordinate axis of the 3D view.
#[derive(Clone, Copy, PartialEq, Eq, Structural)]
pub enum Axis {
    X,
    Y,
    Z,
}

/// The axis of gizmo handle `i`: the first three handles stand on x, y and
/// z; any later index counts as z.
pub open spec fn gizmo_axis_spec(i: usize) -> Axis {
    if i == 0 {
        Axis::X
    } else if i == 1 {
        Axis::Y
    } else {
        Axis::Z
    }
}

/// The axis of gizmo handle `i`.
pub fn gizmo_axis(i: usize) -> (a: Axis)
    ensures
        a == gizmo_axis_spec(i),
{
    match i {
        0 => Axis::X,
        1 => Axis::Y,
        _ => Axis::Z,
    }
}

/// What dragging a handle does to the geometry.
#[derive(Clone, Copy, PartialEq, Eq, Structural)]
pub enum HandleEdit {
    /// Nothing besides moving the handle itself.
    Nothing,
    /// Move vertex `1` of surface `0`.
    SurfaceVertex(usize, usize),
    /// Move point `0`.
    Point(usize),
    /// Move the start (`true`) or end (`false`) of line `0`.
    LineEnd(usize, bool),
    /// Redraw line `0` unchanged.
    LineRedraw(usize),
    /// Transform the object along the axis, as the gizmo mode says.
    Gizmo(GizmoMode, HitObject, Axis),
}

/// What dragging handle `handle_idx` does, given what the handles belong
/// to, how many lines there are, and whether a gizmo origin is set.  The
/// handle of a point is handle 0; a line's handles 0 and 1 are its ends and
/// any other handle redraws it; alignment handles are edited elsewhere.
pub open spec fn handle_edit_spec(
    target: HandleTarget,
    handle_idx: usize,
    n_lines: usize,
    has_gizmo_origin: bool,
) -> HandleEdit {
    match target {
        HandleTarget::Surface(idx) => HandleEdit::SurfaceVertex(idx, handle_idx),
        HandleTarget::Point(idx) => if handle_idx == 0 {
            HandleEdit::Point(idx)
        } else {
            HandleEdit::Nothing
        },
        HandleTarget::Line(idx) => if idx >= n_lines {
            HandleEdit::Nothing
        } else if handle_idx == 0 {
            HandleEdit::LineEnd(idx, true)
        } else if handle_idx == 1 {
            HandleEdit::LineEnd(idx, false)
        } else {
            HandleEdit::LineRedraw(idx)
        },
        HandleTarget::AlignmentPi => HandleEdit::Nothing,
        HandleTarget::VerticalVertex => HandleEdit::Nothing,
        HandleTarget::Gizmo(mode, obj) => if has_gizmo_origin {
            HandleEdit::Gizmo(mode, obj, gizmo_axis_spec(handle_idx))
        } else {
            HandleEdit::Nothing
        },
    }
}

/// What dragging handle `handle_idx` does to the geometry.
pub fn handle_edit(
    target: HandleTarget,
    handle_idx: usize,
    n_lines: usize,
    has_gizmo_origin: bool,
) -> (e: HandleEdit)
    ensures
        e == handle_edit_spec(target, handle_idx, n_lines, has_gizmo_origin),
{
    match target {
        HandleTarget::Surface(idx) => HandleEdit::SurfaceVertex(idx, handle_idx),
        HandleTarget::Point(idx) => {
            if handle_idx == 0 {
                HandleEdit::Point(idx)
            } else {
                HandleEdit::Nothing
            }
        },
        HandleTarget::Line(idx) => {
            if idx >= n_lines {
                HandleEdit::Nothing
            } else if handle_idx == 0 {
                HandleEdit::LineEnd(idx, true)
            } else if handle_idx == 1 {
                HandleEdit::LineEnd(idx, false)
            } else {
                HandleEdit::LineRedraw(idx)
            }
        },
        HandleTarget::AlignmentPi => HandleEdit::Nothing,
        HandleTarget::VerticalVertex => HandleEdit::Nothing,
        HandleTarget::Gizmo(mode, obj) => {
            if has_gizmo_origin {
                HandleEdit::Gizmo(mode, obj, gizmo_axis(handle_idx))
            } else {
                HandleEdit::Nothing
            }
        },
    }
}

/// The surface and handle under the cursor, which are drawn highlighted.
#[derive(Clone, Copy, PartialEq, Eq, Structural)]
pub struct HoverState {
    pub surface: Option<usize>,
    pub handle: Option<usize>,
}

/// A change of highlight: on (`true`) or off (`false`).
#[derive(Clone, Copy, PartialEq, Eq, Structural)]
pub enum Highlight {
    Handle(usize, bool),
    Surface(usize, bool),
}

/// Switching off the highlight of `prev`, if any.
pub open spec fn off_handle(prev: Option<usize>) -> Seq<Highlight> {
    match prev {
        Some(p) => seq![Highlight::Handle(p, false)],
        None => Seq::empty(),
    }
}

/// Switching off the highlight of `prev`, if any.
pub open spec fn off_surface(prev: Option<usize>) -> Seq<Highlight> {
    match prev {
        Some(p) => seq![Highlight::Surface(p, false)],
        None => Seq::empty(),
    }
}

/// The hover state after a pick, and the highlight changes in the order
/// they are made.  A handle under the cursor is highlighted (the previous
/// one switched off first, unless it is the same) and any hovered surface
/// loses its highlight; a surface likewise; anything else clears both.
pub open spec fn hover_update_spec(h: HoverState, result: Option<HitObject>) -> (
    HoverState,
    Seq<Highlight>,
) {
    match result {
        Some(HitObject::Handle(i)) => {
            let handle_changes = if h.handle != Some(i) {
                off_handle(h.handle).push(Highlight::Handle(i, true))
            } else {
                Seq::empty()
            };
            (
                HoverState { surface: None, handle: Some(i) },
                handle_changes + off_surface(h.surface),
            )
        },
        Some(HitObject::Surface(i)) => {
            let surface_changes = if h.surface != Some(i) {
                off_surface(h.surface).push(Highlight::Surface(i, true))
            } else {
                Seq::empty()
            };
            (
                HoverState { surface: Some(i), handle: None },
                surface_changes + off_handle(h.handle),
            )
        },
        _ => (HoverState { surface: None, handle: None }, off_surface(h.surface) + off_handle(
            h.handle,
        )),
    }
}

fn push_off_handle(v: &mut Vec<Highlight>, prev: Option<usize>)
    ensures
        final(v)@ == old(v)@ + off_handle(prev),
{
    if let Some(p) = prev {
        v.push(Highlight::Handle(p, false));
    }
    assert(v@ =~= old(v)@ + off_handle(prev));
}

fn push_off_surface(v: &mut Vec<Highlight>, prev: Option<usize>)
    ensures
        final(v)@ == old(v)@ + off_surface(prev),
{
    if let Some(p) = prev {
        v.push(Highlight::Surface(p, false));
    }
    assert(v@ =~= old(v)@ + off_surface(prev));
}

/// Updates the hover state after a pick and returns the highlight changes
/// to make, in order.
pub fn hover_update(h: HoverState, result: Option<HitObject>) -> (r: (HoverState, Vec<Highlight>))
    ensures
        (r.0, r.1@) == hover_update_spec(h, result),
{
    let mut changes: Vec<Highlight> = Vec::new();
    match result {
        Some(HitObject::Handle(i)) => {
            if h.handle != Some(i) {
                push_off_handle(&mut changes, h.handle);
                changes.push(Highlight::Handle(i, true));
            }
            push_off_surface(&mut changes, h.surface);
            proof {
                let hc = if h.handle != Some(i) {
                    off_handle(h.handle).push(Highlight::Handle(i, true))
                } else {
                    Seq::empty()
                };
                assert(changes@ =~= hc + off_surface(h.surface));
            }
            (HoverState { surface: None, handle: Some(i) }, changes)
        },
        Some(HitObject::Surface(i)) => {
            if h.surface != Some(i) {
                push_off_surface(&mut changes, h.surface);
                changes.push(Highlight::Surface(i, true));
            }
            push_off_handle(&mut changes, h.handle);
            proof {
                let sc = if h.surface != Some(i) {
                    off_surface(h.surface).push(Highlight::Surface(i, true))
                } else {
                    Seq::empty()
                };
                assert(changes@ =~= sc + off_handle(h.handle));
            }
            (HoverState { surface: Some(i), handle: None }, changes)
        },
        _ => {
            push_off_surface(&mut changes, h.surface);
            push_off_handle(&mut changes, h.handle);
            assert(changes@ =~= off_surface(h.surface) + off_handle(h.handle));
            (HoverState { surface: None, handle: None }, changes)
        },
    }
}

/// Picking the same thing twice in a row changes no highlight the second
/// time.
pub proof fn law_hover_update_settles(h: HoverState, result: Option<HitObject>)
    ensures
        ({
            let (h1, _) = hover_update_spec(h, result);
            let (h2, changes) = hover_update_spec(h1, result);
            h2 == h1 && changes.len() == 0
        }),
{
    let (h1, _) = hover_update_spec(h, result);
    match result {
        Some(HitObject::Handle(i)) => {
            assert(Seq::<Highlight>::empty() + off_surface(h1.surface) =~= Seq::empty());
        },
        Some(HitObject::Surface(i)) => {
            assert(Seq::<Highlight>::empty() + off_handle(h1.handle) =~= Seq::empty());
        },
        _ => {
            assert(off_surface(h1.surface) + off_handle(h1.handle) =~= Seq::empty());
        },
    }
}

/// What picking an object in the 3D view with a click changes on screen.
#[derive(Clone, Copy, PartialEq, Eq, Structural)]
pub enum PickEffect {
    Highlight(Highlight),
    SurfaceHandles(usize),
    PointHandles(usize),
    LineHandles(usize),
    HideHandles,
}

/// The selected surface after a click picked `hit`, and the changes in the
/// order they are made.  A surface becomes the selection: the previous one
/// loses its highlight, the new one is highlighted and its vertex handles
/// shown.  A point or a line gets its handles and leaves the selection as
/// it is.  Anything else clears the selection, and where there was one,
/// switches its highlight off and hides the handles.
pub open spec fn pick_spec(selected: Option<usize>, hit: HitObject) -> (Option<usize>, Seq<
    PickEffect,
>) {
    match hit {
        HitObject::Surface(i) => {
            let off = match selected {
                Some(p) => seq![PickEffect::Highlight(Highlight::Surface(p, false))],
                None => Seq::empty(),
            };
            (
                Some(i),
                off.push(PickEffect::Highlight(Highlight::Surface(i, true))).push(
                    PickEffect::SurfaceHandles(i),
                ),
            )
        },
        HitObject::Point(i) => (selected, seq![PickEffect::PointHandles(i)]),
        HitObject::Line(i) => (selected, seq![PickEffect::LineHandles(i)]),
        _ => match selected {
            Some(p) => (
                None,
                seq![
                    PickEffect::Highlight(Highlight::Surface(p, false)),
                    PickEffect::HideHandles,
                ],
            ),
            None => (None, Seq::empty()),
        },
    }
}

/// Updates the selected surface after a click picked `hit` and returns the
/// changes to make, in order (see `pick_spec`).
pub fn pick(selected: Option<usize>, hit: HitObject) -> (r: (Option<usize>, Vec<PickEffect>))
    ensures
        (r.0, r.1@) == pick_spec(selected, hit),
{
    let mut fx: Vec<PickEffect> = Vec::new();
    match hit {
        HitObject::Surface(i) => {
            if let Some(p) = selected {
                fx.push(PickEffect::Highlight(Highlight::Surface(p, false)));
            }
            fx.push(PickEffect::Highlight(Highlight::Surface(i, true)));
            fx.push(PickEffect::SurfaceHandles(i));
            proof {
                let off = match selected {
                    Some(p) => seq![PickEffect::Highlight(Highlight::Surface(p, false))],
                    None => Seq::empty(),
                };
                assert(fx@ =~= off.push(PickEffect::Highlight(Highlight::Surface(i, true))).push(
                    PickEffect::SurfaceHandles(i),
                ));
            }
            (Some(i), fx)
        },
        HitObject::Point(i) => {
            fx.push(PickEffect::PointHandles(i));
            assert(fx@ =~= seq![PickEffect::PointHandles(i)]);
            (selected, fx)
        },
        HitObject::Line(i) => {
            fx.push(PickEffect::LineHandles(i));
            assert(fx@ =~= seq![PickEffect::LineHandles(i)]);
            (selected, fx)
        },
        _ => {
            if let Some(p) = selected {
                fx.push(PickEffect::Highlight(Highlight::Surface(p, false)));
                fx.push(PickEffect::HideHandles);
                assert(fx@ =~= seq![
                    PickEffect::Highlight(Highlight::Surface(p, false)),
                    PickEffect::HideHandles,
                ]);
            } else {
                assert(fx@ =~= Seq::<PickEffect>::empty());
            }
            (None, fx)
        },
    }
}

/// Picking the same surface again keeps it selected: its highlight is
/// switched off and on again and its handles are shown anew.
pub proof fn law_pick_surface_twice(selected: Option<usize>, i: usize)
    ensures
        ({
            let (s1, _) = pick_spec(selected, HitObject::Surface(i));
            let (s2, fx) = pick_spec(s1, HitObject::Surface(i));
            &&& s1 == Some(i)
            &&& s2 == Some(i)
            &&& fx =~= seq![
                PickEffect::Highlight(Highlight::Surface(i, false)),
                PickEffect::Highlight(Highlight::Surface(i, true)),
                PickEffect::SurfaceHandles(i),
            ]
        }),
{
}

/// The edges of a closed boundary loop: each index joined to the next, and
/// the last back to the first; a loop of fewer than two indices has none.
pub open spec fn loop_edges(b: Seq<usize>) -> Seq<(usize, usize)> {
    if b.len() < 2 {
        Seq::empty()
    } else {
        Seq::new(b.len(), |i: int| (b[i], b[(i + 1) % (b.len() as int)]))
    }
}

/// The edges of the boundary loop, in order.
pub fn boundary_edges(bound: &Vec<usize>) -> (r: Vec<(usize, usize)>)
    ensures
        r@ == loop_edges(bound@),
{
    let n = bound.len();
    let mut r: Vec<(usize, usize)> = Vec::new();
    if n < 2 {
        assert(r@ =~= loop_edges(bound@));
        return r;
    }
    let mut i: usize = 0;
    while i + 1 < n
        invariant
            n == bound@.len(),
            n >= 2,
            i + 1 <= n,
            r@.len() == i,
            forall|j: int| 0 <= j < i ==> #[trigger] r@[j] == (bound@[j], bound@[(j + 1) % (n as int)]),
        decreases n - i,
    {
        r.push((bound[i], bound[i + 1]));
        proof {
            vstd::arithmetic::div_mod::lemma_small_mod((i + 1) as nat, n as nat);
        }
        i = i + 1;
    }
    r.push((bound[n - 1], bound[0]));
    proof {
        vstd::arithmetic::div_mod::lemma_mod_self_0(n as int);
        assert(r@ =~= loop_edges(bound@));
    }
    r
}

/// A horizontal alignment element: a tangent between two points, or a
/// curve or spiral whose geometry this module does not look into.
pub enum HorizontalElement<P, A, S> {
    Tangent { start: P, end: P },
    Curve { arc: A },
    Spiral { spiral: S },
}

/// The element with its start moved to `p`, if it is a tangent.
pub open spec fn with_start<P, A, S>(e: HorizontalElement<P, A, S>, p: P) -> HorizontalElement<P, A, S> {
    match e {
        HorizontalElement::Tangent { end, .. } => HorizontalElement::Tangent { start: p, end },
        _ => e,
    }
}

/// The element with its end moved to `p`, if it is a tangent.
pub open spec fn with_end<P, A, S>(e: HorizontalElement<P, A, S>, p: P) -> HorizontalElement<P, A, S> {
    match e {
        HorizontalElement::Tangent { start, .. } => HorizontalElement::Tangent { start, end: p },
        _ => e,
    }
}

/// Moving the point of intersection handle `k` to `p`: the tangent that
/// ends there gets `p` as its end and the tangent that starts there gets
/// it as its start; curves and spirals keep their geometry.
pub open spec fn move_pi_spec<P, A, S>(
    elems: Seq<HorizontalElement<P, A, S>>,
    k: usize,
    p: P,
) -> Seq<HorizontalElement<P, A, S>> {
    let e1 = if k > 0 && k - 1 < elems.len() {
        elems.update(k - 1, with_end(elems[k - 1], p))
    } else {
        elems
    };
    if k < e1.len() {
        e1.update(k as int, with_start(e1[k as int], p))
    } else {
        e1
    }
}

impl<P: Copy, A, S> HorizontalElement<P, A, S> {
    fn set_start(&mut self, p: P)
        ensures
            *final(self) == with_start(*old(self), p),
    {
        match self {
            HorizontalElement::Tangent { start, .. } => {
                *start = p;
            },
            _ => {},
        }
    }

    fn set_end(&mut self, p: P)
        ensures
            *final(self) == with_end(*old(self), p),
    {
        match self {
            HorizontalElement::Tangent { end, .. } => {
                *end = p;
            },
            _ => {},
        }
    }
}

/// Moves the point of intersection handle `k` of a horizontal alignment to
/// `p`.
pub fn move_alignment_pi<P: Copy, A, S>(elems: &mut Vec<HorizontalElement<P, A, S>>, k: usize, p: P)
    ensures
        final(elems)@ == move_pi_spec(old(elems)@, k, p),
{
    if k == 0 && 0 < elems.len() {
        elems[0].set_start(p);
    }
    if k > 0 && k - 1 < elems.len() {
        elems[k - 1].set_end(p);
    }
    if k < elems.len() {
        elems[k].set_start(p);
    }
    proof {
        if k == 0 && 0 < old(elems)@.len() {
            assert(with_start(with_start(old(elems)@[0], p), p) == with_start(old(elems)@[0], p));
        }
        assert(elems@ =~= move_pi_spec(old(elems)@, k, p));
    }
}

/// Where an alignment handle sits: at the start or at the end of an
/// element.
#[derive(Clone, Copy, PartialEq, Eq, Structural)]
pub enum ElementEnd {
    Start(usize),
    End(usize),
}

/// The handles of an alignment of `n` elements (horizontal or vertical),
/// in order: the start of the first element, then the end of each; none
/// without elements.  Handle `k` is the joint that moving handle `k`
/// edits, as long as every joint gets its handle drawn.
pub open spec fn joint_handles(n: nat) -> Seq<ElementEnd> {
    if n == 0 {
        Seq::empty()
    } else {
        Seq::new(n + 1, |k: int| if k == 0 {
            ElementEnd::Start(0)
        } else {
            ElementEnd::End((k - 1) as usize)
        })
    }
}

/// The handles of an alignment of `n` elements (see `joint_handles`).
pub fn alignment_handles(n: usize) -> (r: Vec<ElementEnd>)
    requires
        n < usize::MAX,
    ensures
        r@ == joint_handles(n as nat),
{
    let mut r: Vec<ElementEnd> = Vec::new();
    if n == 0 {
        assert(r@ =~= joint_handles(0));
        return r;
    }
    r.push(ElementEnd::Start(0));
    let mut i: usize = 0;
    while i < n
        invariant
            0 < n < usize::MAX,
            i <= n,
            r@.len() == i + 1,
            forall|k: int| 0 <= k <= i ==> r@[k] == joint_handles(n as nat)[k],
        decreases n - i,
    {
        r.push(ElementEnd::End(i));
        i = i + 1;
    }
    assert(r@ =~= joint_handles(n as nat));
    r
}

/// Moving a point-of-intersection handle edits only the two tangents that
/// meet there: every other element stays as it was.
pub proof fn law_move_pi_keeps_other_elements<P, A, S>(
    elems: Seq<HorizontalElement<P, A, S>>,
    k: usize,
    p: P,
    j: int,
)
    requires
        0 <= j < elems.len(),
        j != k,
        j != k - 1,
    ensures
        move_pi_spec(elems, k, p).len() == elems.len(),
        move_pi_spec(elems, k, p)[j] == elems[j],
{
}

/// A vertical profile element: a straight grade or a parabolic curve,
/// with stations, elevations and grades of type `F`.
pub enum VerticalElement<F> {
    Grade { start_station: F, end_station: F, start_elev: F, end_elev: F },
    Parabola { start_station: F, end_station: F, start_elev: F, start_grade: F, end_grade: F },
}

/// The element starting at `station` and `elev`.
pub open spec fn starting_at<F>(e: VerticalElement<F>, station: F, elev: F) -> VerticalElement<F> {
    match e {
        VerticalElement::Grade { end_station, end_elev, .. } => VerticalElement::Grade {
            start_station: station,
            end_station,
            start_elev: elev,
            end_elev,
        },
        VerticalElement::Parabola { end_station, start_grade, end_grade, .. } => {
            VerticalElement::Parabola {
                start_station: station,
                end_station,
                start_elev: elev,
                start_grade,
                end_grade,
            }
        },
    }
}

/// The element ending at `station` (and at `elev`, for a grade; a
/// parabola's end elevation follows from its grades).
pub open spec fn ending_at<F>(e: VerticalElement<F>, station: F, elev: F) -> VerticalElement<F> {
    match e {
        VerticalElement::Grade { start_station, start_elev, .. } => VerticalElement::Grade {
            start_station,
            end_station: station,
            start_elev,
            end_elev: elev,
        },
        VerticalElement::Parabola { start_station, start_elev, start_grade, end_grade, .. } => {
            VerticalElement::Parabola {
                start_station,
                end_station: station,
                start_elev,
                start_grade,
                end_grade,
            }
        },
    }
}

/// Moving vertex handle `idx` of a profile to `station` and `elev`: the
/// element before it ends there and the element from it starts there.
pub open spec fn move_vertical_spec<F>(
    elems: Seq<VerticalElement<F>>,
    idx: usize,
    station: F,
    elev: F,
) -> Seq<VerticalElement<F>> {
    let e1 = if idx > 0 && idx - 1 < elems.len() {
        elems.update(idx - 1, ending_at(elems[idx - 1], station, elev))
    } else {
        elems
    };
    if idx < e1.len() {
        e1.update(idx as int, starting_at(e1[idx as int], station, elev))
    } else {
        e1
    }
}

impl<F: Copy> VerticalElement<F> {
    fn set_start(&mut self, station: F, elev: F)
        ensures
            *final(self) == starting_at(*old(self), station, elev),
    {
        match self {
            VerticalElement::Grade { start_station, start_elev, .. } => {
                *start_station = station;
                *start_elev = elev;
            },
            VerticalElement::Parabola { start_station, start_elev, .. } => {
                *start_station = station;
                *start_elev = elev;
            },
        }
    }

    fn set_end(&mut self, station: F, elev: F)
        ensures
            *final(self) == ending_at(*old(self), station, elev),
    {
        match self {
            VerticalElement::Grade { end_station, end_elev, .. } => {
                *end_station = station;
                *end_elev = elev;
            },
            VerticalElement::Parabola { end_station, .. } => {
                *end_station = station;
            },
        }
    }
}

/// Moves vertex handle `idx` of a vertical profile to `station` and
/// `elev`.  Handle 0 needs a first element.
pub fn move_vertical_vertex<F: Copy>(
    elems: &mut Vec<VerticalElement<F>>,
    idx: usize,
    station: F,
    elev: F,
)
    requires
        idx == 0 ==> old(elems)@.len() > 0,
    ensures
        final(elems)@ == move_vertical_spec(old(elems)@, idx, station, elev),
{
    if idx == 0 {
        elems[0].set_start(station, elev);
    }
    if idx > 0 && idx - 1 < elems.len() {
        elems[idx - 1].set_end(station, elev);
    }
    if idx < elems.len() {
        elems[idx].set_start(station, elev);
    }
    proof {
        if idx == 0 {
            assert(starting_at(starting_at(old(elems)@[0], station, elev), station, elev)
                == starting_at(old(elems)@[0], station, elev));
        }
        assert(elems@ =~= move_vertical_spec(old(elems)@, idx, station, elev));
    }
}

/// Moving a profile vertex handle edits only the two elements that meet
/// there: every other element stays as it was.
pub proof fn law_move_vertical_keeps_other_elements<F>(
    elems: Seq<VerticalElement<F>>,
    idx: usize,
    station: F,
    elev: F,
    j: int,
)
    requires
        0 <= j < elems.len(),
        j != idx,
        j != idx - 1,
    ensures
        move_vertical_spec(elems, idx, station, elev).len() == elems.len(),
        move_vertical_spec(elems, idx, station, elev)[j] == elems[j],
{
}

/// Element `idx` of the ids, when there is one.
fn id_at(ids: &Vec<Option<usize>>, idx: usize) -> (r: Option<usize>)
    ensures
        r == (if idx < ids@.len() {
            ids@[idx as int]
        } else {
            None
        }),
{
    if idx < ids.len() {
        ids[idx]
    } else {
        None
    }
}

/// The bookkeeping of the 3D view beside its render engine: the geometry,
/// the engine id under which each point, line, dimension and surface is
/// drawn (`None` for surfaces drawn in a batch), the editing handles, the
/// hover state, and the last snap point.  The caller makes the matching
/// engine calls with the ids these methods take and give back.
pub struct BackendState<V, C, W> {
    pub point_ids: Vec<Option<usize>>,
    pub line_ids: Vec<Option<usize>>,
    pub dimension_ids: Vec<Option<usize>>,
    pub surface_ids: Vec<Option<usize>>,
    pub geometry: GeometryStore<V, C, W>,
    pub handles: Option<(HandleTarget, Vec<usize>)>,
    pub hover: HoverState,
    pub snap_point: Option<V>,
    pub gizmo_origin: Option<V>,
}

impl<V: Copy, C: Copy, W: Copy> BackendState<V, C, W> {
    /// Every point, line, dimension and surface has its engine id at the
    /// same index.
    pub open spec fn ids_aligned(&self) -> bool {
        &&& self.point_ids@.len() == self.geometry@.points.len()
        &&& self.line_ids@.len() == self.geometry@.lines.len()
        &&& self.dimension_ids@.len() == self.geometry@.dimensions.len()
        &&& self.surface_ids@.len() == self.geometry@.surfaces.len()
    }

    /// An empty view with no handles and nothing hovered.
    pub fn new() -> (b: Self)
        ensures
            b.geometry@ == GeometryView::<V, C, W>::empty(),
            b.point_ids@.len() == 0,
            b.line_ids@.len() == 0,
            b.dimension_ids@.len() == 0,
            b.surface_ids@.len() == 0,
            b.handles is None,
            b.hover == (HoverState { surface: None, handle: None }),
            b.snap_point is None,
            b.gizmo_origin is None,
            b.ids_aligned(),
    {
        BackendState {
            point_ids: Vec::new(),
            line_ids: Vec::new(),
            dimension_ids: Vec::new(),
            surface_ids: Vec::new(),
            geometry: GeometryStore::new(),
            handles: None,
            hover: HoverState { surface: None, handle: None },
            snap_point: None,
            gizmo_origin: None,
        }
    }

    /// Records a point drawn as engine marker `marker` and returns its
    /// index.
    pub fn add_point(&mut self, p: V, marker: usize) -> (idx: usize)
        ensures
            final(self).point_ids@ == old(self).point_ids@.push(Some(marker)),
            final(self).geometry@ == (GeometryView {
                points: old(self).geometry@.points.push(p),
                ..old(self).geometry@
            }),
            idx == old(self).geometry@.points.len(),
            final(self).line_ids == old(self).line_ids,
            final(self).dimension_ids == old(self).dimension_ids,
            final(self).surface_ids == old(self).surface_ids,
            final(self).handles == old(self).handles,
            old(self).ids_aligned() ==> final(self).ids_aligned(),
            final(self).hover == old(self).hover,
            final(self).snap_point == old(self).snap_point,
            final(self).gizmo_origin == old(self).gizmo_origin,
    {
        self.point_ids.push(Some(marker));
        self.geometry.add_point(p)
    }

    /// Moves point `idx` to `p` and returns the engine marker to move, if
    /// it has one.
    pub fn update_point(&mut self, idx: usize, p: V) -> (marker: Option<usize>)
        ensures
            marker == (if idx < old(self).point_ids@.len() {
                old(self).point_ids@[idx as int]
            } else {
                None
            }),
            final(self).geometry@ == (GeometryView {
                points: crate::geometry::update_if_present(old(self).geometry@.points, idx, p),
                ..old(self).geometry@
            }),
            final(self).point_ids == old(self).point_ids,
            final(self).line_ids == old(self).line_ids,
            final(self).dimension_ids == old(self).dimension_ids,
            final(self).surface_ids == old(self).surface_ids,
            final(self).handles == old(self).handles,
            old(self).ids_aligned() ==> final(self).ids_aligned(),
            final(self).hover == old(self).hover,
            final(self).snap_point == old(self).snap_point,
            final(self).gizmo_origin == old(self).gizmo_origin,
    {
        let marker = id_at(&self.point_ids, idx);
        self.geometry.update_point(idx, p);
        marker
    }

    /// Removes point `idx`, when it has an engine id, and returns the engine
    /// marker to remove.
    pub fn remove_point(&mut self, idx: usize) -> (marker: Option<usize>)
        ensures
            idx < old(self).point_ids@.len() ==> {
                &&& marker == old(self).point_ids@[idx as int]
                &&& final(self).point_ids@ == old(self).point_ids@.remove(idx as int)
                &&& final(self).geometry@ == (GeometryView {
                    points: remove_if_present(old(self).geometry@.points, idx),
                    ..old(self).geometry@
                })
            },
            idx >= old(self).point_ids@.len() ==> marker is None && final(self).point_ids
                == old(self).point_ids && final(self).geometry@ == old(self).geometry@,
            final(self).line_ids == old(self).line_ids,
            final(self).dimension_ids == old(self).dimension_ids,
            final(self).surface_ids == old(self).surface_ids,
            final(self).handles == old(self).handles,
            old(self).ids_aligned() ==> final(self).ids_aligned(),
            final(self).hover == old(self).hover,
            final(self).snap_point == old(self).snap_point,
            final(self).gizmo_origin == old(self).gizmo_origin,
    {
        if idx < self.point_ids.len() {
            let marker = self.point_ids.remove(idx);
            self.geometry.remove_point(idx);
            marker
        } else {
            None
        }
    }

    /// Records a line drawn as engine line `line_id` and returns its index.
    pub fn add_line(&mut self, a: V, b: V, color: C, weight: W, line_id: usize) -> (idx: usize)
        ensures
            final(self).line_ids@ == old(self).line_ids@.push(Some(line_id)),
            final(self).geometry@ == (GeometryView {
                lines: old(self).geometry@.lines.push((a, b, color, weight)),
                ..old(self).geometry@
            }),
            idx == old(self).geometry@.lines.len(),
            final(self).point_ids == old(self).point_ids,
            final(self).dimension_ids == old(self).dimension_ids,
            final(self).surface_ids == old(self).surface_ids,
            final(self).handles == old(self).handles,
            old(self).ids_aligned() ==> final(self).ids_aligned(),
            final(self).hover == old(self).hover,
            final(self).snap_point == old(self).snap_point,
            final(self).gizmo_origin == old(self).gizmo_origin,
    {
        self.line_ids.push(Some(line_id));
        self.geometry.add_line(a, b, color, weight)
    }

    /// Replaces line `idx` and returns the engine line to redraw, if it has
    /// one.
    pub fn update_line(&mut self, idx: usize, a: V, b: V, color: C, weight: W) -> (line_id:
        Option<usize>)
        ensures
            line_id == (if idx < old(self).line_ids@.len() {
                old(self).line_ids@[idx as int]
            } else {
                None
            }),
            final(self).geometry@ == (GeometryView {
                lines: crate::geometry::update_if_present(
                    old(self).geometry@.lines,
                    idx,
                    (a, b, color, weight),
                ),
                ..old(self).geometry@
            }),
            final(self).point_ids == old(self).point_ids,
            final(self).line_ids == old(self).line_ids,
            final(self).dimension_ids == old(self).dimension_ids,
            final(self).surface_ids == old(self).surface_ids,
            final(self).handles == old(self).handles,
            old(self).ids_aligned() ==> final(self).ids_aligned(),
            final(self).hover == old(self).hover,
            final(self).snap_point == old(self).snap_point,
            final(self).gizmo_origin == old(self).gizmo_origin,
    {
        let line_id = id_at(&self.line_ids, idx);
        self.geometry.update_line(idx, a, b, color, weight);
        line_id
    }

    /// Removes line `idx`, when it has an engine id, and returns the engine
    /// line to remove.
    pub fn remove_line(&mut self, idx: usize) -> (line_id: Option<usize>)
        ensures
            idx < old(self).line_ids@.len() ==> {
                &&& line_id == old(self).line_ids@[idx as int]
                &&& final(self).line_ids@ == old(self).line_ids@.remove(idx as int)
                &&& final(self).geometry@ == (GeometryView {
                    lines: remove_if_present(old(self).geometry@.lines, idx),
                    ..old(self).geometry@
                })
            },
            idx >= old(self).line_ids@.len() ==> line_id is None && final(self).line_ids
                == old(self).line_ids && final(self).geometry@ == old(self).geometry@,
            final(self).point_ids == old(self).point_ids,
            final(self).dimension_ids == old(self).dimension_ids,
            final(self).surface_ids == old(self).surface_ids,
            final(self).handles == old(self).handles,
            old(self).ids_aligned() ==> final(self).ids_aligned(),
            final(self).hover == old(self).hover,
            final(self).snap_point == old(self).snap_point,
            final(self).gizmo_origin == old(self).gizmo_origin,
    {
        if idx < self.line_ids.len() {
            let line_id = self.line_ids.remove(idx);
            self.geometry.remove_line(idx);
            line_id
        } else {
            None
        }
    }

    /// Records a dimension drawn as engine line `line_id` and returns its
    /// index.
    pub fn add_dimension(&mut self, a: V, b: V, line_id: usize) -> (idx: usize)
        ensures
            final(self).dimension_ids@ == old(self).dimension_ids@.push(Some(line_id)),
            final(self).geometry@ == (GeometryView {
                dimensions: old(self).geometry@.dimensions.push((a, b)),
                ..old(self).geometry@
            }),
            idx == old(self).geometry@.dimensions.len(),
            final(self).point_ids == old(self).point_ids,
            final(self).line_ids == old(self).line_ids,
            final(self).surface_ids == old(self).surface_ids,
            final(self).handles == old(self).handles,
            old(self).ids_aligned() ==> final(self).ids_aligned(),
            final(self).hover == old(self).hover,
            final(self).snap_point == old(self).snap_point,
            final(self).gizmo_origin == old(self).gizmo_origin,
    {
        self.dimension_ids.push(Some(line_id));
        self.geometry.add_dimension(a, b)
    }

    /// Removes dimension `idx`, when it has an engine id, and returns the
    /// engine line to remove.
    pub fn remove_dimension(&mut self, idx: usize) -> (line_id: Option<usize>)
        ensures
            idx < old(self).dimension_ids@.len() ==> {
                &&& line_id == old(self).dimension_ids@[idx as int]
                &&& final(self).dimension_ids@ == old(self).dimension_ids@.remove(idx as int)
                &&& final(self).geometry@ == (GeometryView {
                    dimensions: remove_if_present(old(self).geometry@.dimensions, idx),
                    ..old(self).geometry@
                })
            },
            idx >= old(self).dimension_ids@.len() ==> line_id is None && final(self).dimension_ids == old(self).dimension_ids && final(self).geometry@ == old(self).geometry@,
            final(self).point_ids == old(self).point_ids,
            final(self).line_ids == old(self).line_ids,
            final(self).surface_ids == old(self).surface_ids,
            final(self).handles == old(self).handles,
            old(self).ids_aligned() ==> final(self).ids_aligned(),
            final(self).hover == old(self).hover,
            final(self).snap_point == old(self).snap_point,
            final(self).gizmo_origin == old(self).gizmo_origin,
    {
        if idx < self.dimension_ids.len() {
            let line_id = self.dimension_ids.remove(idx);
            self.geometry.remove_dimension(idx);
            line_id
        } else {
            None
        }
    }

    /// Records a surface, drawn as engine surface `surface_id` (or `None`
    /// when it is drawn in a batch), and returns its index.
    pub fn add_surface(&mut self, vertices: &[V], triangles: &[Triangle], surface_id: Option<
        usize,
    >) -> (idx: usize)
        ensures
            final(self).surface_ids@ == old(self).surface_ids@.push(surface_id),
            final(self).geometry@.surfaces == old(self).geometry@.surfaces.push(
                crate::mesh::SurfaceView {
                    vertices: vertices@,
                    triangles: triangles@,
                    breaklines: Seq::empty(),
                    boundary: None,
                },
            ),
            final(self).geometry@.points == old(self).geometry@.points,
            final(self).geometry@.lines == old(self).geometry@.lines,
            final(self).geometry@.dimensions == old(self).geometry@.dimensions,
            final(self).geometry@.solids == old(self).geometry@.solids,
            idx == old(self).geometry@.surfaces.len(),
            final(self).point_ids == old(self).point_ids,
            final(self).line_ids == old(self).line_ids,
            final(self).dimension_ids == old(self).dimension_ids,
            final(self).handles == old(self).handles,
            old(self).ids_aligned() ==> final(self).ids_aligned(),
            final(self).hover == old(self).hover,
            final(self).snap_point == old(self).snap_point,
            final(self).gizmo_origin == old(self).gizmo_origin,
    {
        self.surface_ids.push(surface_id);
        self.geometry.add_surface(vertices, triangles)
    }

    /// Replaces the vertices and triangles of surface `idx` (dropping its
    /// breaklines and boundary) and returns the engine surface to redraw, if
    /// it has one.
    pub fn update_surface(&mut self, idx: usize, vertices: &[V], triangles: &[Triangle]) -> (surface_id: Option<usize>)
        ensures
            surface_id == (if idx < old(self).surface_ids@.len() {
                old(self).surface_ids@[idx as int]
            } else {
                None
            }),
            idx < old(self).geometry@.surfaces.len() ==> final(self).geometry@ == old(self).geometry@.with_surface(
                idx,
                old(self).geometry@.surfaces[idx as int].replaced(vertices@, triangles@),
            ),
            idx >= old(self).geometry@.surfaces.len() ==> final(self).geometry@ == old(self).geometry@,
            final(self).point_ids == old(self).point_ids,
            final(self).line_ids == old(self).line_ids,
            final(self).dimension_ids == old(self).dimension_ids,
            final(self).surface_ids == old(self).surface_ids,
            final(self).handles == old(self).handles,
            old(self).ids_aligned() ==> final(self).ids_aligned(),
            final(self).hover == old(self).hover,
            final(self).snap_point == old(self).snap_point,
            final(self).gizmo_origin == old(self).gizmo_origin,
    {
        let surface_id = id_at(&self.surface_ids, idx);
        self.geometry.update_surface(idx, vertices, triangles);
        surface_id
    }

    /// Removes surface `idx`, when it has an entry in the id table, and
    /// returns the engine surface to remove.
    pub fn remove_surface(&mut self, idx: usize) -> (surface_id: Option<usize>)
        ensures
            idx < old(self).surface_ids@.len() ==> {
                &&& surface_id == old(self).surface_ids@[idx as int]
                &&& final(self).surface_ids@ == old(self).surface_ids@.remove(idx as int)
                &&& final(self).geometry@ == (GeometryView {
                    surfaces: remove_if_present(old(self).geometry@.surfaces, idx),
                    ..old(self).geometry@
                })
            },
            idx >= old(self).surface_ids@.len() ==> surface_id is None && final(self).surface_ids == old(self).surface_ids && final(self).geometry@ == old(self).geometry@,
            final(self).point_ids == old(self).point_ids,
            final(self).line_ids == old(self).line_ids,
            final(self).dimension_ids == old(self).dimension_ids,
            final(self).handles == old(self).handles,
            old(self).ids_aligned() ==> final(self).ids_aligned(),
            final(self).hover == old(self).hover,
            final(self).snap_point == old(self).snap_point,
            final(self).gizmo_origin == old(self).gizmo_origin,
    {
        if idx < self.surface_ids.len() {
            let surface_id = self.surface_ids.remove(idx);
            self.geometry.remove_surface(idx);
            surface_id
        } else {
            None
        }
    }

    /// Takes the editing handles away and returns the engine markers that
    /// drew them; the gizmo origin goes too.
    pub fn hide_handles(&mut self) -> (markers: Vec<usize>)
        ensures
            markers@ == (match old(self).handles {
                Some(h) => h.1@,
                None => Seq::empty(),
            }),
            final(self).handles is None,
            final(self).gizmo_origin is None,
            final(self).point_ids == old(self).point_ids,
            final(self).line_ids == old(self).line_ids,
            final(self).dimension_ids == old(self).dimension_ids,
            final(self).surface_ids == old(self).surface_ids,
            final(self).geometry@ == old(self).geometry@,
            final(self).hover == old(self).hover,
            final(self).snap_point == old(self).snap_point,
    {
        let mut taken: Option<(HandleTarget, Vec<usize>)> = None;
        std::mem::swap(&mut taken, &mut self.handles);
        self.gizmo_origin = None;
        match taken {
            Some((_, markers)) => markers,
            None => Vec::new(),
        }
    }

    /// Shows handles for `target`, drawn as the engine markers `markers`.
    pub fn set_handles(&mut self, target: HandleTarget, markers: Vec<usize>)
        ensures
            final(self).handles == Some((target, markers)),
            final(self).point_ids == old(self).point_ids,
            final(self).line_ids == old(self).line_ids,
            final(self).dimension_ids == old(self).dimension_ids,
            final(self).surface_ids == old(self).surface_ids,
            final(self).geometry@ == old(self).geometry@,
            final(self).gizmo_origin == old(self).gizmo_origin,
            final(self).hover == old(self).hover,
            final(self).snap_point == old(self).snap_point,
    {
        self.handles = Some((target, markers));
    }

    /// The engine marker of handle `handle_idx`, if there is such a handle.
    pub fn handle_marker(&self, handle_idx: usize) -> (r: Option<usize>)
        ensures
            r == (match self.handles {
                Some(h) => if handle_idx < h.1@.len() {
                    Some(h.1@[handle_idx as int])
                } else {
                    None
                },
                None => None,
            }),
    {
        match &self.handles {
            Some((_, markers)) => {
                if handle_idx < markers.len() {
                    Some(markers[handle_idx])
                } else {
                    None
                }
            },
            None => None,
        }
    }

    /// Empties the view: geometry, engine ids and handles; returns the
    /// engine markers of the handles, which the caller removes after
    /// clearing the engine's scene.
    pub fn clear(&mut self) -> (markers: Vec<usize>)
        ensures
            markers@ == (match old(self).handles {
                Some(h) => h.1@,
                None => Seq::empty(),
            }),
            final(self).geometry@ == GeometryView::<V, C, W>::empty(),
            final(self).point_ids@.len() == 0,
            final(self).line_ids@.len() == 0,
            final(self).dimension_ids@.len() == 0,
            final(self).surface_ids@.len() == 0,
            final(self).handles is None,
            final(self).ids_aligned(),
            final(self).hover == old(self).hover,
            final(self).snap_point == old(self).snap_point,
            final(self).gizmo_origin == old(self).gizmo_origin,
    {
        self.point_ids.clear();
        self.line_ids.clear();
        self.dimension_ids.clear();
        self.surface_ids.clear();
        self.geometry.clear();
        let mut taken: Option<(HandleTarget, Vec<usize>)> = None;
        std::mem::swap(&mut taken, &mut self.handles);
        match taken {
            Some((_, markers)) => markers,
            None => Vec::new(),
        }
    }
}

} // verus!
