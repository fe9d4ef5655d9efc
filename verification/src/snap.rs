use vstd::prelude::*;

use crate::geometry::GeometryStore;

verus! {

/// Which kinds of geometry the cursor snaps to.
#[derive(Clone, Copy, Default)]
pub struct SnapOptions {
    pub snap_points: bool,
    pub snap_endpoints: bool,
    pub snap_midpoints: bool,
    pub snap_intersections: bool,
    pub snap_nearest: bool,
    pub snap_surfaces: bool,
    pub snap_solids: bool,
}

/// The geometry of the 3D view that snapping looks at.
pub struct Scene3D<V> {
    pub points: Vec<V>,
    pub lines: Vec<(V, V)>,
    pub surface_vertices: Vec<V>,
    pub solid_vertices: Vec<V>,
}

/// A place the cursor may snap to in 3D: a given point, the midpoint of a
/// line, or the foot of the perpendicular from the cursor onto a line (taken
/// only when it falls within the line).
pub enum SnapCandidate<V> {
    At(V),
    Midpoint(V, V),
    Projection(V, V),
}

/// The candidates for one line, in the order they are tried: its two
/// endpoints, its midpoint, the projection onto it.
pub open spec fn line_candidates<V>(a: V, b: V, opts: SnapOptions) -> Seq<SnapCandidate<V>> {
    (if opts.snap_endpoints {
        seq![SnapCandidate::At(a), SnapCandidate::At(b)]
    } else {
        Seq::empty()
    }) + (if opts.snap_midpoints {
        seq![SnapCandidate::Midpoint(a, b)]
    } else {
        Seq::empty()
    }) + (if opts.snap_nearest {
        seq![SnapCandidate::Projection(a, b)]
    } else {
        Seq::empty()
    })
}

/// The candidates of all lines, line after line.
pub open spec fn lines_candidates<V>(lines: Seq<(V, V)>, opts: SnapOptions) -> Seq<
    SnapCandidate<V>,
>
    decreases lines.len(),
{
    if lines.len() == 0 {
        Seq::empty()
    } else {
        lines_candidates(lines.drop_last(), opts) + line_candidates(
            lines.last().0,
            lines.last().1,
            opts,
        )
    }
}

/// Points as candidates.
pub open spec fn at_all<V>(ps: Seq<V>) -> Seq<SnapCandidate<V>> {
    ps.map_values(|p: V| SnapCandidate::At(p))
}

/// Every candidate that 3D snapping tries, in order.  Surface and solid
/// vertices count only together with point snapping.
pub open spec fn snap_candidates_spec<V>(
    points: Seq<V>,
    lines: Seq<(V, V)>,
    surface_vertices: Seq<V>,
    solid_vertices: Seq<V>,
    opts: SnapOptions,
) -> Seq<SnapCandidate<V>> {
    (if opts.snap_points {
        at_all(points) + (if opts.snap_surfaces {
            at_all(surface_vertices)
        } else {
            Seq::empty()
        }) + (if opts.snap_solids {
            at_all(solid_vertices)
        } else {
            Seq::empty()
        })
    } else {
        Seq::empty()
    }) + (if opts.snap_endpoints || opts.snap_midpoints || opts.snap_nearest {
        lines_candidates(lines, opts)
    } else {
        Seq::empty()
    })
}

/// What a concatenation holds: what either part holds.
proof fn lemma_concat_contains<T>(a: Seq<T>, b: Seq<T>, x: T)
    ensures
        (a + b).contains(x) <==> (a.contains(x) || b.contains(x)),
{
    if a.contains(x) {
        let i = choose|i: int| 0 <= i < a.len() && a[i] == x;
        assert((a + b)[i] == x);
    }
    if b.contains(x) {
        let i = choose|i: int| 0 <= i < b.len() && b[i] == x;
        assert((a + b)[a.len() + i] == x);
    }
    if (a + b).contains(x) {
        let i = choose|i: int| 0 <= i < (a + b).len() && (a + b)[i] == x;
        if i < a.len() {
            assert(a[i] == x);
        } else {
            assert(b[i - a.len()] == x);
        }
    }
}

/// The candidates of all lines are those of each line: every candidate of
/// a line is among them, and each of them is a candidate of some line.
proof fn lemma_lines_candidates_members<V>(lines: Seq<(V, V)>, opts: SnapOptions, x: SnapCandidate<V>)
    ensures
        lines_candidates(lines, opts).contains(x) <==> exists|i: int|
            0 <= i < lines.len() && #[trigger] line_candidates(lines[i].0, lines[i].1, opts).contains(x),
    decreases lines.len(),
{
    if lines.len() > 0 {
        let init = lines.drop_last();
        let n = lines.len() - 1;
        lemma_lines_candidates_members(init, opts, x);
        lemma_concat_contains(
            lines_candidates(init, opts),
            line_candidates(lines.last().0, lines.last().1, opts),
            x,
        );
        if exists|i: int|
            0 <= i < lines.len() && #[trigger] line_candidates(lines[i].0, lines[i].1, opts).contains(x) {
            let i = choose|i: int|
                0 <= i < lines.len() && #[trigger] line_candidates(lines[i].0, lines[i].1, opts).contains(x);
            if i < n {
                assert(init[i] == lines[i]);
                assert(line_candidates(init[i].0, init[i].1, opts).contains(x));
            }
        }
        if exists|i: int|
            0 <= i < init.len() && #[trigger] line_candidates(init[i].0, init[i].1, opts).contains(x) {
            let i = choose|i: int|
                0 <= i < init.len() && #[trigger] line_candidates(init[i].0, init[i].1, opts).contains(x);
            assert(init[i] == lines[i]);
            assert(line_candidates(lines[i].0, lines[i].1, opts).contains(x));
        }
    }
}

/// What one line offers as candidates: both endpoints with endpoint
/// snapping, the midpoint with midpoint snapping, the projection with
/// nearest snapping, and nothing else.
proof fn lemma_line_candidates_members<V>(a: V, b: V, opts: SnapOptions, x: SnapCandidate<V>)
    ensures
        line_candidates(a, b, opts).contains(x) <==> match x {
            SnapCandidate::At(v) => opts.snap_endpoints && (v == a || v == b),
            SnapCandidate::Midpoint(p, q) => opts.snap_midpoints && p == a && q == b,
            SnapCandidate::Projection(p, q) => opts.snap_nearest && p == a && q == b,
        },
{
    let e: Seq<SnapCandidate<V>> = if opts.snap_endpoints {
        seq![SnapCandidate::At(a), SnapCandidate::At(b)]
    } else {
        Seq::empty()
    };
    let m: Seq<SnapCandidate<V>> = if opts.snap_midpoints {
        seq![SnapCandidate::Midpoint(a, b)]
    } else {
        Seq::empty()
    };
    let p: Seq<SnapCandidate<V>> = if opts.snap_nearest {
        seq![SnapCandidate::Projection(a, b)]
    } else {
        Seq::empty()
    };
    lemma_concat_contains(e + m, p, x);
    lemma_concat_contains(e, m, x);
    if opts.snap_endpoints {
        assert(e[0] == SnapCandidate::At(a) && e[1] == SnapCandidate::At(b));
    }
    if opts.snap_midpoints {
        assert(m[0] == SnapCandidate::Midpoint(a, b));
    }
    if opts.snap_nearest {
        assert(p[0] == SnapCandidate::Projection(a, b));
    }
}

/// What `at_all` holds: each given point, as a candidate.
proof fn lemma_at_all_members<V>(ps: Seq<V>, x: SnapCandidate<V>)
    ensures
        at_all(ps).contains(x) <==> (x matches SnapCandidate::At(v) && ps.contains(v)),
{
    if at_all(ps).contains(x) {
        let i = choose|i: int| 0 <= i < at_all(ps).len() && at_all(ps)[i] == x;
        assert(ps[i] == x->At_0);
    }
    if let SnapCandidate::At(v) = x {
        if ps.contains(v) {
            let i = choose|i: int| 0 <= i < ps.len() && ps[i] == v;
            assert(at_all(ps)[i] == x);
        }
    }
}

/// The candidates that 3D snapping tries are exactly these: each point
/// with point snapping, each surface vertex with point and surface
/// snapping, each solid vertex with point and solid snapping, both
/// endpoints of each line with endpoint snapping (whatever the point
/// option), the midpoint of each line with midpoint snapping, and the
/// projection onto each line with nearest snapping.
pub proof fn law_snap_candidates_members<V>(
    points: Seq<V>,
    lines: Seq<(V, V)>,
    surface_vertices: Seq<V>,
    solid_vertices: Seq<V>,
    opts: SnapOptions,
    x: SnapCandidate<V>,
)
    ensures
        snap_candidates_spec(points, lines, surface_vertices, solid_vertices, opts).contains(x)
            <==> match x {
            SnapCandidate::At(v) => (opts.snap_points && points.contains(v)) || (opts.snap_points
                && opts.snap_surfaces && surface_vertices.contains(v)) || (opts.snap_points
                && opts.snap_solids && solid_vertices.contains(v)) || (opts.snap_endpoints
                && exists|i: int| 0 <= i < lines.len() && (#[trigger] lines[i].0 == v || lines[i].1 == v)),
            SnapCandidate::Midpoint(a, b) => opts.snap_midpoints && lines.contains((a, b)),
            SnapCandidate::Projection(a, b) => opts.snap_nearest && lines.contains((a, b)),
        },
{
    let s: Seq<SnapCandidate<V>> = if opts.snap_surfaces {
        at_all(surface_vertices)
    } else {
        Seq::empty()
    };
    let o: Seq<SnapCandidate<V>> = if opts.snap_solids {
        at_all(solid_vertices)
    } else {
        Seq::empty()
    };
    let head: Seq<SnapCandidate<V>> = if opts.snap_points {
        at_all(points) + s + o
    } else {
        Seq::empty()
    };
    let tail: Seq<SnapCandidate<V>> = if opts.snap_endpoints || opts.snap_midpoints
        || opts.snap_nearest {
        lines_candidates(lines, opts)
    } else {
        Seq::empty()
    };
    lemma_concat_contains(head, tail, x);
    lemma_concat_contains(at_all(points) + s, o, x);
    lemma_concat_contains(at_all(points), s, x);
    lemma_at_all_members(points, x);
    lemma_at_all_members(surface_vertices, x);
    lemma_at_all_members(solid_vertices, x);
    lemma_lines_candidates_members(lines, opts, x);
    if exists|i: int|
        0 <= i < lines.len() && #[trigger] line_candidates(lines[i].0, lines[i].1, opts).contains(x) {
        let i = choose|i: int|
            0 <= i < lines.len() && #[trigger] line_candidates(lines[i].0, lines[i].1, opts).contains(x);
        lemma_line_candidates_members(lines[i].0, lines[i].1, opts, x);
        assert(lines[i] == (lines[i].0, lines[i].1));
    }
    match x {
        SnapCandidate::At(v) => {
            if opts.snap_endpoints && exists|i: int|
                0 <= i < lines.len() && (#[trigger] lines[i].0 == v || lines[i].1 == v) {
                let i = choose|i: int|
                    0 <= i < lines.len() && (#[trigger] lines[i].0 == v || lines[i].1 == v);
                lemma_line_candidates_members(lines[i].0, lines[i].1, opts, x);
            }
        },
        SnapCandidate::Midpoint(a, b) => {
            if opts.snap_midpoints && lines.contains((a, b)) {
                let i = choose|i: int| 0 <= i < lines.len() && lines[i] == (a, b);
                lemma_line_candidates_members(lines[i].0, lines[i].1, opts, x);
            }
        },
        SnapCandidate::Projection(a, b) => {
            if opts.snap_nearest && lines.contains((a, b)) {
                let i = choose|i: int| 0 <= i < lines.len() && lines[i] == (a, b);
                lemma_line_candidates_members(lines[i].0, lines[i].1, opts, x);
            }
        },
    }
}

/// Appends the points of `src` to `dst` as candidates.
fn push_all_at<V: Copy>(dst: &mut Vec<SnapCandidate<V>>, src: &Vec<V>)
    ensures
        final(dst)@ == old(dst)@ + at_all(src@),
{
    let ghost start = dst@;
    let mut i: usize = 0;
    while i < src.len()
        invariant
            i <= src@.len(),
            dst@ == start + at_all(src@.take(i as int)),
        decreases src@.len() - i,
    {
        dst.push(SnapCandidate::At(src[i]));
        i = i + 1;
        assert(at_all(src@.take(i as int)) =~= at_all(src@.take(i - 1)).push(
            SnapCandidate::At(src@[i - 1]),
        ));
        assert(dst@ =~= start + at_all(src@.take(i as int)));
    }
    assert(src@.take(src@.len() as int) =~= src@);
}

impl<V: Copy> Scene3D<V> {
    /// Every candidate that 3D snapping tries with the options `opts`, in
    /// the order it tries them; the closest one within the tolerance wins,
    /// the earlier one on a tie.
    pub fn snap_candidates(&self, opts: SnapOptions) -> (r: Vec<SnapCandidate<V>>)
        ensures
            r@ == snap_candidates_spec(
                self.points@,
                self.lines@,
                self.surface_vertices@,
                self.solid_vertices@,
                opts,
            ),
    {
        let mut r: Vec<SnapCandidate<V>> = Vec::new();
        if opts.snap_points {
            push_all_at(&mut r, &self.points);
            if opts.snap_surfaces {
                push_all_at(&mut r, &self.surface_vertices);
            }
            if opts.snap_solids {
                push_all_at(&mut r, &self.solid_vertices);
            }
        }
        let ghost head = r@;
        assert(head =~= (if opts.snap_points {
            at_all(self.points@) + (if opts.snap_surfaces {
                at_all(self.surface_vertices@)
            } else {
                Seq::empty()
            }) + (if opts.snap_solids {
                at_all(self.solid_vertices@)
            } else {
                Seq::empty()
            })
        } else {
            Seq::empty()
        }));
        if opts.snap_endpoints || opts.snap_midpoints || opts.snap_nearest {
            let mut i: usize = 0;
            while i < self.lines.len()
                invariant
                    i <= self.lines@.len(),
                    r@ == head + lines_candidates(self.lines@.take(i as int), opts),
                decreases self.lines@.len() - i,
            {
                let (a, b) = self.lines[i];
                if opts.snap_endpoints {
                    r.push(SnapCandidate::At(a));
                    r.push(SnapCandidate::At(b));
                }
                if opts.snap_midpoints {
                    r.push(SnapCandidate::Midpoint(a, b));
                }
                if opts.snap_nearest {
                    r.push(SnapCandidate::Projection(a, b));
                }
                i = i + 1;
                assert(self.lines@.take(i as int).drop_last() =~= self.lines@.take(i - 1));
                assert(r@ =~= head + lines_candidates(self.lines@.take(i as int), opts));
            }
            assert(self.lines@.take(self.lines@.len() as int) =~= self.lines@);
        } else {
            assert(r@ =~= head + Seq::empty());
        }
        r
    }
}

/// Appends every element of every vector of `src` to `dst`.
fn push_flattened<V: Copy>(dst: &mut Vec<V>, src: &Vec<Vec<V>>)
    ensures
        final(dst)@ == old(dst)@ + src@.map_values(|s: Vec<V>| s@).flatten_alt(),
{
    let ghost start = dst@;
    let ghost views = src@.map_values(|s: Vec<V>| s@);
    let mut i: usize = 0;
    while i < src.len()
        invariant
            i <= src@.len(),
            views == src@.map_values(|s: Vec<V>| s@),
            dst@ == start + views.take(i as int).flatten_alt(),
        decreases src@.len() - i,
    {
        let inner = &src[i];
        let ghost before = dst@;
        let mut j: usize = 0;
        while j < inner.len()
            invariant
                j <= inner@.len(),
                dst@ == before + inner@.take(j as int),
            decreases inner@.len() - j,
        {
            dst.push(inner[j]);
            j = j + 1;
            assert(dst@ =~= before + inner@.take(j as int));
        }
        assert(inner@.take(inner@.len() as int) =~= inner@);
        i = i + 1;
        assert(views.take(i as int).drop_last() =~= views.take(i - 1));
        assert(views.take(i as int).last() == inner@);
        assert(dst@ =~= start + views.take(i as int).flatten_alt());
    }
    assert(views.take(src@.len() as int) =~= views);
}

impl<V: Copy, C: Copy, W: Copy> GeometryStore<V, C, W> {
    /// The geometry that snapping looks at: the points, the lines without
    /// their colour and weight, the vertices of all surfaces one surface
    /// after the other, and the positions of all solids likewise.
    pub fn snap_scene(&self) -> (scene: Scene3D<V>)
        ensures
            scene.points@ == self@.points,
            scene.lines@ == self@.lines.map_values(|l: (V, V, C, W)| (l.0, l.1)),
            scene.surface_vertices@ == self@.surfaces.map_values(
                |s: crate::mesh::SurfaceView<V>| s.vertices,
            ).flatten(),
            scene.solid_vertices@ == self@.solids.flatten(),
    {
        let points = crate::mesh::copy_slice(self.points.as_slice());
        let mut lines: Vec<(V, V)> = Vec::new();
        let mut i: usize = 0;
        while i < self.lines.len()
            invariant
                i <= self.lines@.len(),
                lines@ == self.lines@.take(i as int).map_values(|l: (V, V, C, W)| (l.0, l.1)),
            decreases self.lines@.len() - i,
        {
            let (a, b, _, _) = self.lines[i];
            lines.push((a, b));
            i = i + 1;
            assert(lines@ =~= self.lines@.take(i as int).map_values(
                |l: (V, V, C, W)| (l.0, l.1),
            ));
        }
        assert(self.lines@.take(self.lines@.len() as int) =~= self.lines@);
        let mut surface_vertices: Vec<V> = Vec::new();
        let ghost sviews = self@.surfaces.map_values(|s: crate::mesh::SurfaceView<V>| s.vertices);
        let mut k: usize = 0;
        while k < self.surfaces.len()
            invariant
                k <= self.surfaces@.len(),
                sviews == self@.surfaces.map_values(
                    |s: crate::mesh::SurfaceView<V>| s.vertices,
                ),
                surface_vertices@ == sviews.take(k as int).flatten_alt(),
            decreases self.surfaces@.len() - k,
        {
            let vs = &self.surfaces[k].vertices;
            let ghost before = surface_vertices@;
            let mut j: usize = 0;
            while j < vs.len()
                invariant
                    j <= vs@.len(),
                    surface_vertices@ == before + vs@.take(j as int),
                decreases vs@.len() - j,
            {
                surface_vertices.push(vs[j]);
                j = j + 1;
                assert(surface_vertices@ =~= before + vs@.take(j as int));
            }
            assert(vs@.take(vs@.len() as int) =~= vs@);
            k = k + 1;
            assert(sviews.take(k as int).drop_last() =~= sviews.take(k - 1));
            assert(sviews.take(k as int).last() == vs@);
            assert(surface_vertices@ =~= sviews.take(k as int).flatten_alt());
        }
        assert(sviews.take(self.surfaces@.len() as int) =~= sviews);
        let mut solid_vertices: Vec<V> = Vec::new();
        push_flattened(&mut solid_vertices, &self.solids);
        proof {
            sviews.lemma_flatten_and_flatten_alt_are_equivalent();
            self@.solids.lemma_flatten_and_flatten_alt_are_equivalent();
            assert(solid_vertices@ =~= self@.solids.flatten_alt());
        }
        Scene3D { points, lines, surface_vertices, solid_vertices }
    }
}

/// How 2D snapping uses the options: which entities it hands to the
/// snapper and which snap modes it switches on.
#[derive(Clone, Copy)]
pub struct SnapPlan {
    /// Points are handed over as point entities.
    pub use_points: bool,
    /// Lines, polygons, polylines and arcs are handed over.
    pub use_linework: bool,
    pub endpoints: bool,
    pub midpoints: bool,
    pub intersections: bool,
    pub nearest: bool,
}

/// The 2D snapping plan for the options `opts`: point snapping also snaps
/// to endpoints, and linework is considered for any line-based mode.
pub fn snap_plan(opts: SnapOptions) -> (plan: SnapPlan)
    ensures
        plan.use_points == opts.snap_points,
        plan.use_linework == (opts.snap_endpoints || opts.snap_midpoints
            || opts.snap_intersections || opts.snap_nearest),
        plan.endpoints == (opts.snap_points || opts.snap_endpoints),
        plan.midpoints == opts.snap_midpoints,
        plan.intersections == opts.snap_intersections,
        plan.nearest == opts.snap_nearest,
{
    SnapPlan {
        use_points: opts.snap_points,
        use_linework: opts.snap_endpoints || opts.snap_midpoints || opts.snap_intersections
            || opts.snap_nearest,
        endpoints: opts.snap_points || opts.snap_endpoints,
        midpoints: opts.snap_midpoints,
        intersections: opts.snap_intersections,
        nearest: opts.snap_nearest,
    }
}

/// Whether 2D snapping has any entity to hand to the snapper, given the
/// number of points, lines, polygons, polylines and arcs of the scene; with
/// none, snapping finds nothing.
pub fn snap_has_entities(
    plan: SnapPlan,
    points: usize,
    lines: usize,
    polygons: usize,
    polylines: usize,
    arcs: usize,
) -> (r: bool)
    ensures
        r == ((if plan.use_points {
            points as int
        } else {
            0
        }) + (if plan.use_linework {
            lines + polygons + polylines + arcs
        } else {
            0
        }) > 0),
{
    (plan.use_points && points > 0) || (plan.use_linework && (lines > 0 || polygons > 0
        || polylines > 0 || arcs > 0))
}

} // verus!
