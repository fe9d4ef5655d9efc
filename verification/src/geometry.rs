use vstd::prelude::*;

use crate::mesh::{copy_slice, SurfaceData, SurfaceView, Triangle};

verus! {

/// The contents of a geometry store as mathematical values.
pub struct GeometryView<V, C, W> {
    pub points: Seq<V>,
    pub lines: Seq<(V, V, C, W)>,
    pub dimensions: Seq<(V, V)>,
    pub surfaces: Seq<SurfaceView<V>>,
    pub solids: Seq<Seq<V>>,
}

impl<V, C, W> GeometryView<V, C, W> {
    /// The store with nothing in it.
    pub open spec fn empty() -> Self {
        GeometryView {
            points: Seq::empty(),
            lines: Seq::empty(),
            dimensions: Seq::empty(),
            surfaces: Seq::empty(),
            solids: Seq::empty(),
        }
    }

    /// The store with the surface `idx` replaced by `s`, if there is a
    /// surface `idx`; otherwise the store itself.
    pub open spec fn with_surface(self, idx: usize, s: SurfaceView<V>) -> Self {
        if idx < self.surfaces.len() {
            GeometryView { surfaces: self.surfaces.update(idx as int, s), ..self }
        } else {
            self
        }
    }

    /// Every surface of the store has its triangles on its own vertices.
    pub open spec fn triangles_valid(self) -> bool {
        forall|i: int| 0 <= i < self.surfaces.len() ==> (#[trigger] self.surfaces[i]).triangles_valid()
    }

    /// Every surface of the store has valid, distinct breaklines.
    pub open spec fn breaklines_valid(self) -> bool {
        forall|i: int|
            0 <= i < self.surfaces.len() ==> (#[trigger] self.surfaces[i]).breaklines_valid()
    }
}

/// Removes the element `idx` when there is one.
pub open spec fn remove_if_present<T>(s: Seq<T>, idx: usize) -> Seq<T> {
    if idx < s.len() {
        s.remove(idx as int)
    } else {
        s
    }
}

/// Replaces the element `idx` when there is one.
pub open spec fn update_if_present<T>(s: Seq<T>, idx: usize, x: T) -> Seq<T> {
    if idx < s.len() {
        s.update(idx as int, x)
    } else {
        s
    }
}

/// What the 3D view holds: points, lines with their colour and weight,
/// dimension lines, triangulated surfaces, and the triangulated positions of
/// solids (kept for snapping).  `V` is the point type, `C` a line colour and
/// `W` a line weight.
pub struct GeometryStore<V, C, W> {
    pub points: Vec<V>,
    pub lines: Vec<(V, V, C, W)>,
    pub dimensions: Vec<(V, V)>,
    pub surfaces: Vec<SurfaceData<V>>,
    pub solids: Vec<Vec<V>>,
}

impl<V, C, W> View for GeometryStore<V, C, W> {
    type V = GeometryView<V, C, W>;

    open spec fn view(&self) -> GeometryView<V, C, W> {
        GeometryView {
            points: self.points@,
            lines: self.lines@,
            dimensions: self.dimensions@,
            surfaces: self.surfaces@.map_values(|s: SurfaceData<V>| s@),
            solids: self.solids@.map_values(|s: Vec<V>| s@),
        }
    }
}

impl<V: Copy, C: Copy, W: Copy> Default for GeometryStore<V, C, W> {
    /// An empty store.
    fn default() -> (g: Self)
        ensures
            g@ == GeometryView::<V, C, W>::empty(),
    {
        Self::new()
    }
}

impl<V: Copy, C: Copy, W: Copy> GeometryStore<V, C, W> {
    /// An empty store.
    pub fn new() -> (g: Self)
        ensures
            g@ == GeometryView::<V, C, W>::empty(),
    {
        let g = GeometryStore {
            points: Vec::new(),
            lines: Vec::new(),
            dimensions: Vec::new(),
            surfaces: Vec::new(),
            solids: Vec::new(),
        };
        assert(g@.surfaces =~= Seq::<SurfaceView<V>>::empty());
        assert(g@.solids =~= Seq::<Seq<V>>::empty());
        g
    }

    /// Removes everything.
    pub fn clear(&mut self)
        ensures
            final(self)@ == GeometryView::<V, C, W>::empty(),
    {
        self.points.clear();
        self.lines.clear();
        self.dimensions.clear();
        self.surfaces.clear();
        self.solids.clear();
        assert(self@.surfaces =~= Seq::<SurfaceView<V>>::empty());
        assert(self@.solids =~= Seq::<Seq<V>>::empty());
    }

    /// Appends a point and returns its index.
    pub fn add_point(&mut self, p: V) -> (idx: usize)
        ensures
            final(self)@ == (GeometryView { points: old(self)@.points.push(p), ..old(self)@ }),
            idx == old(self)@.points.len(),
    {
        self.points.push(p);
        self.points.len() - 1
    }

    /// Moves the point `idx` to `p`; an index past the end changes nothing.
    pub fn update_point(&mut self, idx: usize, p: V)
        ensures
            final(self)@ == (GeometryView {
                points: update_if_present(old(self)@.points, idx, p),
                ..old(self)@
            }),
    {
        if idx < self.points.len() {
            self.points.set(idx, p);
        }
    }

    /// Removes the point `idx`; an index past the end changes nothing.
    pub fn remove_point(&mut self, idx: usize)
        ensures
            final(self)@ == (GeometryView {
                points: remove_if_present(old(self)@.points, idx),
                ..old(self)@
            }),
    {
        if idx < self.points.len() {
            self.points.remove(idx);
        }
    }

    /// Appends a line with its colour and weight, and returns its index.
    pub fn add_line(&mut self, a: V, b: V, color: C, weight: W) -> (idx: usize)
        ensures
            final(self)@ == (GeometryView {
                lines: old(self)@.lines.push((a, b, color, weight)),
                ..old(self)@
            }),
            idx == old(self)@.lines.len(),
    {
        self.lines.push((a, b, color, weight));
        self.lines.len() - 1
    }

    /// Replaces the line `idx`; an index past the end changes nothing.
    pub fn update_line(&mut self, idx: usize, a: V, b: V, color: C, weight: W)
        ensures
            final(self)@ == (GeometryView {
                lines: update_if_present(old(self)@.lines, idx, (a, b, color, weight)),
                ..old(self)@
            }),
    {
        if idx < self.lines.len() {
            self.lines.set(idx, (a, b, color, weight));
        }
    }

    /// Removes the line `idx`; an index past the end changes nothing.
    pub fn remove_line(&mut self, idx: usize)
        ensures
            final(self)@ == (GeometryView {
                lines: remove_if_present(old(self)@.lines, idx),
                ..old(self)@
            }),
    {
        if idx < self.lines.len() {
            self.lines.remove(idx);
        }
    }

    /// Appends a dimension line and returns its index.
    pub fn add_dimension(&mut self, a: V, b: V) -> (idx: usize)
        ensures
            final(self)@ == (GeometryView {
                dimensions: old(self)@.dimensions.push((a, b)),
                ..old(self)@
            }),
            idx == old(self)@.dimensions.len(),
    {
        self.dimensions.push((a, b));
        self.dimensions.len() - 1
    }

    /// Removes the dimension line `idx`; an index past the end changes
    /// nothing.
    pub fn remove_dimension(&mut self, idx: usize)
        ensures
            final(self)@ == (GeometryView {
                dimensions: remove_if_present(old(self)@.dimensions, idx),
                ..old(self)@
            }),
    {
        if idx < self.dimensions.len() {
            self.dimensions.remove(idx);
        }
    }

    /// Appends a surface with the given vertices and triangles, no
    /// breaklines and no boundary, and returns its index.
    pub fn add_surface(&mut self, vertices: &[V], triangles: &[Triangle]) -> (idx: usize)
        ensures
            final(self)@ == (GeometryView {
                surfaces: old(self)@.surfaces.push(
                    SurfaceView {
                        vertices: vertices@,
                        triangles: triangles@,
                        breaklines: Seq::empty(),
                        boundary: None,
                    },
                ),
                ..old(self)@
            }),
            idx == old(self)@.surfaces.len(),
    {
        let s = SurfaceData::new(vertices, triangles);
        self.surfaces.push(s);
        assert(self@.surfaces =~= old(self)@.surfaces.push(s@));
        self.surfaces.len() - 1
    }

    /// Replaces the vertices and triangles of the surface `idx` and drops its
    /// breaklines and boundary; an index past the end changes nothing.
    pub fn update_surface(&mut self, idx: usize, vertices: &[V], triangles: &[Triangle])
        ensures
            idx < old(self)@.surfaces.len() ==> final(self)@ == old(self)@.with_surface(
                idx,
                old(self)@.surfaces[idx as int].replaced(vertices@, triangles@),
            ),
            idx >= old(self)@.surfaces.len() ==> final(self)@ == old(self)@,
    {
        if idx < self.surfaces.len() {
            self.surfaces[idx].replace(vertices, triangles);
            assert(self@.surfaces =~= old(self)@.surfaces.update(
                idx as int,
                old(self)@.surfaces[idx as int].replaced(vertices@, triangles@),
            ));
        }
    }

    /// Removes the surface `idx`; an index past the end changes nothing.
    pub fn remove_surface(&mut self, idx: usize)
        ensures
            final(self)@ == (GeometryView {
                surfaces: remove_if_present(old(self)@.surfaces, idx),
                ..old(self)@
            }),
    {
        if idx < self.surfaces.len() {
            self.surfaces.remove(idx);
            assert(self@.surfaces =~= old(self)@.surfaces.remove(idx as int));
        }
    }

    /// Keeps the triangulated positions of a solid, for snapping.
    pub fn add_solid(&mut self, positions: Vec<V>)
        ensures
            final(self)@ == (GeometryView {
                solids: old(self)@.solids.push(positions@),
                ..old(self)@
            }),
    {
        self.solids.push(positions);
        assert(self@.solids =~= old(self)@.solids.push(positions@));
    }
    /// Appends a vertex to the surface `surface` and returns its index, or
    /// `None` when there is no such surface.
    pub fn add_vertex(&mut self, surface: usize, p: V) -> (r: Option<usize>)
        ensures
            surface < old(self)@.surfaces.len() ==> {
                &&& final(self)@ == old(self)@.with_surface(
                    surface,
                    old(self)@.surfaces[surface as int].with_vertex(p),
                )
                &&& r == Some(old(self)@.surfaces[surface as int].vertices.len() as usize)
            },
            surface >= old(self)@.surfaces.len() ==> final(self)@ == old(self)@ && r is None,
            old(self)@.triangles_valid() ==> final(self)@.triangles_valid(),
            old(self)@.breaklines_valid() ==> final(self)@.breaklines_valid(),
    {
        if surface < self.surfaces.len() {
            proof {
                assert(old(self)@.surfaces[surface as int] == self.surfaces@[surface as int]@);
            }
            let idx = self.surfaces[surface].add_vertex(p);
            proof {
                self.lemma_edited(old(self)@, surface);
            }
            Some(idx)
        } else {
            None
        }
    }

    /// Moves the vertex `idx` of the surface `surface` to `p`; a surface or
    /// vertex that is not there changes nothing.
    pub fn move_vertex(&mut self, surface: usize, idx: usize, p: V)
        ensures
            surface < old(self)@.surfaces.len() ==> final(self)@ == old(self)@.with_surface(
                surface,
                old(self)@.surfaces[surface as int].with_vertex_moved(idx, p),
            ),
            surface >= old(self)@.surfaces.len() ==> final(self)@ == old(self)@,
            old(self)@.triangles_valid() ==> final(self)@.triangles_valid(),
            old(self)@.breaklines_valid() ==> final(self)@.breaklines_valid(),
    {
        if surface < self.surfaces.len() {
            proof {
                assert(old(self)@.surfaces[surface as int] == self.surfaces@[surface as int]@);
            }
            self.surfaces[surface].move_vertex(idx, p);
            proof {
                self.lemma_edited(old(self)@, surface);
            }
        }
    }

    /// Deletes the vertex `idx` of the surface `surface`, with the triangles
    /// that use it, and renumbers the others; a surface or vertex that is
    /// not there changes nothing.  Breaklines and boundary are left as they
    /// are.
    pub fn delete_vertex(&mut self, surface: usize, idx: usize)
        ensures
            surface < old(self)@.surfaces.len() ==> final(self)@ == old(self)@.with_surface(
                surface,
                old(self)@.surfaces[surface as int].without_vertex(idx),
            ),
            surface >= old(self)@.surfaces.len() ==> final(self)@ == old(self)@,
            old(self)@.triangles_valid() ==> final(self)@.triangles_valid(),
    {
        if surface < self.surfaces.len() {
            proof {
                assert(old(self)@.surfaces[surface as int] == self.surfaces@[surface as int]@);
            }
            self.surfaces[surface].delete_vertex(idx);
            proof {
                self.lemma_edited(old(self)@, surface);
            }
        }
    }

    /// Appends a triangle to the surface `surface`, whatever its indices; a
    /// surface that is not there changes nothing.
    pub fn add_triangle(&mut self, surface: usize, tri: Triangle)
        ensures
            surface < old(self)@.surfaces.len() ==> final(self)@ == old(self)@.with_surface(
                surface,
                old(self)@.surfaces[surface as int].with_triangle(tri),
            ),
            surface >= old(self)@.surfaces.len() ==> final(self)@ == old(self)@,
            old(self)@.breaklines_valid() ==> final(self)@.breaklines_valid(),
    {
        if surface < self.surfaces.len() {
            proof {
                assert(old(self)@.surfaces[surface as int] == self.surfaces@[surface as int]@);
            }
            self.surfaces[surface].add_triangle(tri);
            proof {
                self.lemma_edited(old(self)@, surface);
            }
        }
    }

    /// Deletes the triangle `tri_idx` of the surface `surface`; a surface or
    /// triangle that is not there changes nothing.
    pub fn delete_triangle(&mut self, surface: usize, tri_idx: usize)
        ensures
            surface < old(self)@.surfaces.len() ==> final(self)@ == old(self)@.with_surface(
                surface,
                old(self)@.surfaces[surface as int].without_triangle(tri_idx),
            ),
            surface >= old(self)@.surfaces.len() ==> final(self)@ == old(self)@,
            old(self)@.triangles_valid() ==> final(self)@.triangles_valid(),
            old(self)@.breaklines_valid() ==> final(self)@.breaklines_valid(),
    {
        if surface < self.surfaces.len() {
            proof {
                assert(old(self)@.surfaces[surface as int] == self.surfaces@[surface as int]@);
            }
            self.surfaces[surface].delete_triangle(tri_idx);
            proof {
                self.lemma_edited(old(self)@, surface);
            }
        }
    }

    /// Adds the breakline from `a` to `b` to the surface `surface` when both
    /// are its vertices and no breakline joins them yet.
    pub fn add_breakline(&mut self, surface: usize, a: usize, b: usize)
        ensures
            surface < old(self)@.surfaces.len() ==> final(self)@ == old(self)@.with_surface(
                surface,
                old(self)@.surfaces[surface as int].with_breakline(a, b),
            ),
            surface >= old(self)@.surfaces.len() ==> final(self)@ == old(self)@,
            old(self)@.triangles_valid() ==> final(self)@.triangles_valid(),
            old(self)@.breaklines_valid() ==> final(self)@.breaklines_valid(),
    {
        if surface < self.surfaces.len() {
            proof {
                assert(old(self)@.surfaces[surface as int] == self.surfaces@[surface as int]@);
            }
            self.surfaces[surface].add_breakline(a, b);
            proof {
                self.lemma_edited(old(self)@, surface);
            }
        }
    }

    /// Removes the first breakline of the surface `surface` that joins `a`
    /// and `b`, in either direction.
    pub fn remove_breakline(&mut self, surface: usize, a: usize, b: usize)
        ensures
            surface < old(self)@.surfaces.len() ==> final(self)@ == old(self)@.with_surface(
                surface,
                old(self)@.surfaces[surface as int].without_breakline(a, b),
            ),
            surface >= old(self)@.surfaces.len() ==> final(self)@ == old(self)@,
            old(self)@.triangles_valid() ==> final(self)@.triangles_valid(),
            old(self)@.breaklines_valid() ==> final(self)@.breaklines_valid(),
    {
        if surface < self.surfaces.len() {
            proof {
                assert(old(self)@.surfaces[surface as int] == self.surfaces@[surface as int]@);
            }
            self.surfaces[surface].remove_breakline(a, b);
            proof {
                self.lemma_edited(old(self)@, surface);
            }
        }
    }

    /// Sets the boundary loop of the surface `surface` when it has at least
    /// three indices, all of them its vertices.
    pub fn set_boundary(&mut self, surface: usize, boundary: Vec<usize>)
        ensures
            surface < old(self)@.surfaces.len() ==> final(self)@ == old(self)@.with_surface(
                surface,
                old(self)@.surfaces[surface as int].with_boundary(boundary@),
            ),
            surface >= old(self)@.surfaces.len() ==> final(self)@ == old(self)@,
            old(self)@.triangles_valid() ==> final(self)@.triangles_valid(),
            old(self)@.breaklines_valid() ==> final(self)@.breaklines_valid(),
    {
        if surface < self.surfaces.len() {
            proof {
                assert(old(self)@.surfaces[surface as int] == self.surfaces@[surface as int]@);
            }
            self.surfaces[surface].set_boundary(boundary);
            proof {
                self.lemma_edited(old(self)@, surface);
            }
        }
    }

    /// Drops the boundary loop of the surface `surface`.
    pub fn clear_boundary(&mut self, surface: usize)
        ensures
            surface < old(self)@.surfaces.len() ==> final(self)@ == old(self)@.with_surface(
                surface,
                old(self)@.surfaces[surface as int].without_boundary(),
            ),
            surface >= old(self)@.surfaces.len() ==> final(self)@ == old(self)@,
            old(self)@.triangles_valid() ==> final(self)@.triangles_valid(),
            old(self)@.breaklines_valid() ==> final(self)@.breaklines_valid(),
    {
        if surface < self.surfaces.len() {
            proof {
                assert(old(self)@.surfaces[surface as int] == self.surfaces@[surface as int]@);
            }
            self.surfaces[surface].clear_boundary();
            proof {
                self.lemma_edited(old(self)@, surface);
            }
        }
    }

    /// After one surface was edited in place, the store's view is the old
    /// one with that surface replaced.
    proof fn lemma_edited(&self, before: GeometryView<V, C, W>, surface: usize)
        requires
            surface < before.surfaces.len(),
            self.surfaces@.len() == before.surfaces.len(),
            forall|i: int|
                0 <= i < before.surfaces.len() && i != surface ==> #[trigger] self.surfaces@[i]@
                    == before.surfaces[i],
            self.points@ == before.points,
            self.lines@ == before.lines,
            self.dimensions@ == before.dimensions,
            self.solids@.map_values(|s: Vec<V>| s@) == before.solids,
        ensures
            self@ == before.with_surface(surface, self.surfaces@[surface as int]@),
    {
        assert(self@.surfaces =~= before.surfaces.update(
            surface as int,
            self.surfaces@[surface as int]@,
        ));
    }
}

} // verus!
