use vstd::prelude::*;

verus! {

/// A triangle of a surface, as three indices into its vertex list.
pub type Triangle = [usize; 3];

/// Whether the triangle `t` uses the vertex `idx`.
pub open spec fn tri_uses(t: Triangle, idx: usize) -> bool {
    t[0] == idx || t[1] == idx || t[2] == idx
}

/// An index after the vertex `idx` has been deleted: the indices above
/// `idx` move down by one.
pub open spec fn shift_index(v: usize, idx: usize) -> usize {
    if v > idx {
        (v - 1) as usize
    } else {
        v
    }
}

/// A triangle after the vertex `idx` has been deleted.
pub open spec fn shift_tri(t: Triangle, idx: usize) -> Triangle {
    [shift_index(t[0], idx), shift_index(t[1], idx), shift_index(t[2], idx)]
}

/// The triangles that remain when the vertex `idx` is deleted: those that
/// do not use it, in their order, renumbered.
pub open spec fn tris_after_delete(tris: Seq<Triangle>, idx: usize) -> Seq<Triangle>
    decreases tris.len(),
{
    if tris.len() == 0 {
        Seq::empty()
    } else {
        let rest = tris_after_delete(tris.drop_last(), idx);
        if tri_uses(tris.last(), idx) {
            rest
        } else {
            rest.push(shift_tri(tris.last(), idx))
        }
    }
}

/// Every index of the triangle is below `n`.
pub open spec fn tri_in_range(t: Triangle, n: nat) -> bool {
    t[0] < n && t[1] < n && t[2] < n
}

/// Every triangle of `tris` refers to one of the first `n` vertices.
pub open spec fn tris_in_range(tris: Seq<Triangle>, n: nat) -> bool {
    forall|i: int| 0 <= i < tris.len() ==> #[trigger] tri_in_range(tris[i], n)
}

/// Whether the breakline `bl` joins the vertices `a` and `b`, in either
/// direction.
pub open spec fn same_edge(bl: (usize, usize), a: usize, b: usize) -> bool {
    (bl.0 == a && bl.1 == b) || (bl.0 == b && bl.1 == a)
}

/// Whether some breakline of `bls` joins `a` and `b`.
pub open spec fn has_edge(bls: Seq<(usize, usize)>, a: usize, b: usize) -> bool {
    exists|i: int| 0 <= i < bls.len() && #[trigger] same_edge(bls[i], a, b)
}

/// `k` is the first position of `bls` whose breakline joins `a` and `b`.
pub open spec fn first_edge_at(bls: Seq<(usize, usize)>, a: usize, b: usize, k: int) -> bool {
    &&& 0 <= k < bls.len()
    &&& same_edge(bls[k], a, b)
    &&& forall|j: int| 0 <= j < k ==> !#[trigger] same_edge(bls[j], a, b)
}

/// Every index of `idxs` is below `n`.
pub open spec fn all_below(idxs: Seq<usize>, n: nat) -> bool {
    forall|i: int| 0 <= i < idxs.len() ==> #[trigger] idxs[i] < n
}

/// No two breaklines of `bls` join the same pair of vertices.
pub open spec fn edges_distinct(bls: Seq<(usize, usize)>) -> bool {
    forall|i: int, j: int|
        0 <= i < j < bls.len() ==> !same_edge(#[trigger] bls[i], (#[trigger] bls[j]).0, bls[j].1)
}

/// Both ends of every breakline are vertices of the surface.
pub open spec fn edges_in_range(bls: Seq<(usize, usize)>, n: nat) -> bool {
    forall|i: int| 0 <= i < bls.len() ==> (#[trigger] bls[i]).0 < n && bls[i].1 < n
}

/// The contents of a surface as mathematical values.
pub struct SurfaceView<V> {
    pub vertices: Seq<V>,
    pub triangles: Seq<Triangle>,
    pub breaklines: Seq<(usize, usize)>,
    pub boundary: Option<Seq<usize>>,
}

/// The position of the first breakline of `bls` that joins `a` and `b`.
pub open spec fn first_edge(bls: Seq<(usize, usize)>, a: usize, b: usize) -> int {
    choose|k: int| first_edge_at(bls, a, b, k)
}

impl<V> SurfaceView<V> {
    /// The triangles refer to vertices of the surface.
    pub open spec fn triangles_valid(self) -> bool {
        tris_in_range(self.triangles, self.vertices.len())
    }

    /// The breaklines join vertices of the surface, and no two join the
    /// same pair.
    pub open spec fn breaklines_valid(self) -> bool {
        edges_in_range(self.breaklines, self.vertices.len()) && edges_distinct(self.breaklines)
    }

    /// The boundary, where there is one, has at least three vertices of the
    /// surface.
    pub open spec fn boundary_valid(self) -> bool {
        match self.boundary {
            Some(b) => b.len() >= 3 && all_below(b, self.vertices.len()),
            None => true,
        }
    }

    /// The surface with the vertex `p` appended.
    pub open spec fn with_vertex(self, p: V) -> Self {
        SurfaceView { vertices: self.vertices.push(p), ..self }
    }

    /// The surface with the vertex `idx` moved to `p`, if there is one.
    pub open spec fn with_vertex_moved(self, idx: usize, p: V) -> Self {
        if idx < self.vertices.len() {
            SurfaceView { vertices: self.vertices.update(idx as int, p), ..self }
        } else {
            self
        }
    }

    /// The surface without the vertex `idx`, if there is one: its
    /// triangles go and the others are renumbered.  Breaklines and boundary
    /// are left as they are.
    pub open spec fn without_vertex(self, idx: usize) -> Self {
        if idx < self.vertices.len() {
            SurfaceView {
                vertices: self.vertices.remove(idx as int),
                triangles: tris_after_delete(self.triangles, idx),
                ..self
            }
        } else {
            self
        }
    }

    /// The surface with the triangle `tri` appended.
    pub open spec fn with_triangle(self, tri: Triangle) -> Self {
        SurfaceView { triangles: self.triangles.push(tri), ..self }
    }

    /// The surface without the triangle `tri_idx`, if there is one.
    pub open spec fn without_triangle(self, tri_idx: usize) -> Self {
        if tri_idx < self.triangles.len() {
            SurfaceView { triangles: self.triangles.remove(tri_idx as int), ..self }
        } else {
            self
        }
    }

    /// The surface with the breakline from `a` to `b`, unless an end is not
    /// a vertex or the pair is joined already.
    pub open spec fn with_breakline(self, a: usize, b: usize) -> Self {
        if a < self.vertices.len() && b < self.vertices.len() && !has_edge(self.breaklines, a, b) {
            SurfaceView { breaklines: self.breaklines.push((a, b)), ..self }
        } else {
            self
        }
    }

    /// The surface without the first breakline that joins `a` and `b`.
    pub open spec fn without_breakline(self, a: usize, b: usize) -> Self {
        if has_edge(self.breaklines, a, b) {
            SurfaceView {
                breaklines: self.breaklines.remove(first_edge(self.breaklines, a, b)),
                ..self
            }
        } else {
            self
        }
    }

    /// The surface with the boundary loop `b`, if it has at least three
    /// indices and all of them are vertices.
    pub open spec fn with_boundary(self, b: Seq<usize>) -> Self {
        if b.len() >= 3 && all_below(b, self.vertices.len()) {
            SurfaceView { boundary: Some(b), ..self }
        } else {
            self
        }
    }

    /// The surface without a boundary loop.
    pub open spec fn without_boundary(self) -> Self {
        SurfaceView { boundary: None, ..self }
    }

    /// The surface with new vertices and triangles, no breaklines and no
    /// boundary.
    pub open spec fn replaced(self, vertices: Seq<V>, triangles: Seq<Triangle>) -> Self {
        SurfaceView {
            vertices,
            triangles,
            breaklines: Seq::empty(),
            boundary: None,
        }
    }
}

/// A triangulated surface: its vertices, the triangles over them, the
/// breaklines that the triangulation must respect, and an optional
/// boundary loop.  `V` is the vertex type.
pub struct SurfaceData<V> {
    pub vertices: Vec<V>,
    pub triangles: Vec<Triangle>,
    pub breaklines: Vec<(usize, usize)>,
    pub boundary: Option<Vec<usize>>,
}

impl<V> View for SurfaceData<V> {
    type V = SurfaceView<V>;

    open spec fn view(&self) -> SurfaceView<V> {
        SurfaceView {
            vertices: self.vertices@,
            triangles: self.triangles@,
            breaklines: self.breaklines@,
            boundary: match self.boundary {
                Some(b) => Some(b@),
                None => None,
            },
        }
    }
}

impl<V: Copy> SurfaceData<V> {
    /// A surface with the given vertices and triangles, no breaklines and no
    /// boundary.
    pub fn new(vertices: &[V], triangles: &[Triangle]) -> (s: Self)
        ensures
            s@ == (SurfaceView {
                vertices: vertices@,
                triangles: triangles@,
                breaklines: Seq::empty(),
                boundary: None,
            }),
    {
        SurfaceData {
            vertices: copy_slice(vertices),
            triangles: copy_slice(triangles),
            breaklines: Vec::new(),
            boundary: None,
        }
    }

    /// Appends a vertex and returns its index.
    pub fn add_vertex(&mut self, p: V) -> (idx: usize)
        ensures
            final(self)@ == old(self)@.with_vertex(p),
            idx == old(self).vertices@.len(),
            old(self)@.triangles_valid() ==> final(self)@.triangles_valid(),
            old(self)@.breaklines_valid() ==> final(self)@.breaklines_valid(),
            old(self)@.boundary_valid() ==> final(self)@.boundary_valid(),
    {
        self.vertices.push(p);
        proof {
            let n = old(self).vertices@.len();
            assert forall|i: int| 0 <= i < self.triangles@.len() && old(self)@.triangles_valid()
                implies #[trigger] tri_in_range(self.triangles@[i], n + 1) by {
                assert(tri_in_range(self.triangles@[i], n));
            }
            if let Some(bd) = &self.boundary {
                assert forall|i: int| 0 <= i < bd@.len() && old(self)@.boundary_valid()
                    implies #[trigger] bd@[i] < n + 1 by {
                    assert(bd@[i] < n);
                }
            }
        }
        self.vertices.len() - 1
    }

    /// Moves the vertex `idx` to `p`; an index past the end changes nothing.
    pub fn move_vertex(&mut self, idx: usize, p: V)
        ensures
            final(self)@ == old(self)@.with_vertex_moved(idx, p),
    {
        if idx < self.vertices.len() {
            self.vertices.set(idx, p);
        }
    }

    /// Deletes the vertex `idx`: the triangles that use it go, and the
    /// indices above it in the other triangles move down by one.  An index
    /// past the end changes nothing.
    pub fn delete_vertex(&mut self, idx: usize)
        ensures
            final(self)@ == old(self)@.without_vertex(idx),
            old(self)@.triangles_valid() ==> final(self)@.triangles_valid(),
    {
        if idx < self.vertices.len() {
            proof {
                if self@.triangles_valid() {
                    lemma_delete_keeps_in_range(self.triangles@, self.vertices@.len(), idx);
                }
            }
            self.vertices.remove(idx);
            let kept = delete_from_triangles(&self.triangles, idx);
            self.triangles = kept;
        }
    }

    /// Appends a triangle, whatever its indices.
    pub fn add_triangle(&mut self, tri: Triangle)
        ensures
            final(self)@ == old(self)@.with_triangle(tri),
    {
        self.triangles.push(tri);
    }

    /// Deletes the triangle `tri_idx`; an index past the end changes nothing.
    pub fn delete_triangle(&mut self, tri_idx: usize)
        ensures
            final(self)@ == old(self)@.without_triangle(tri_idx),
            old(self)@.triangles_valid() ==> final(self)@.triangles_valid(),
    {
        if tri_idx < self.triangles.len() {
            self.triangles.remove(tri_idx);
        }
    }

    /// Adds the breakline from `a` to `b` when both are vertices of the
    /// surface and no breakline joins them yet, in either direction.
    pub fn add_breakline(&mut self, a: usize, b: usize)
        ensures
            final(self)@ == old(self)@.with_breakline(a, b),
            old(self)@.breaklines_valid() ==> final(self)@.breaklines_valid(),
    {
        if a < self.vertices.len() && b < self.vertices.len() && !contains_edge(
            &self.breaklines,
            a,
            b,
        ) {
            self.breaklines.push((a, b));
        }
    }

    /// Removes the first breakline that joins `a` and `b`, in either
    /// direction; without one nothing changes.
    pub fn remove_breakline(&mut self, a: usize, b: usize)
        ensures
            final(self)@ == old(self)@.without_breakline(a, b),
            old(self)@.breaklines_valid() ==> final(self)@.breaklines_valid(),
    {
        match edge_position(&self.breaklines, a, b) {
            Some(pos) => {
                proof {
                    lemma_first_edge_unique(self.breaklines@, a, b, pos as int);
                }
                self.breaklines.remove(pos);
            },
            None => {},
        }
    }

    /// Sets the boundary loop when it has at least three indices, all of
    /// them vertices of the surface; otherwise nothing changes.
    pub fn set_boundary(&mut self, boundary: Vec<usize>)
        ensures
            final(self)@ == old(self)@.with_boundary(boundary@),
            old(self)@.boundary_valid() ==> final(self)@.boundary_valid(),
    {
        if indices_below(&boundary, self.vertices.len()) && boundary.len() >= 3 {
            self.boundary = Some(boundary);
        }
    }

    /// Drops the boundary loop.
    pub fn clear_boundary(&mut self)
        ensures
            final(self)@ == old(self)@.without_boundary(),
    {
        self.boundary = None;
    }

    /// Replaces the vertices and triangles, and drops breaklines and
    /// boundary.
    pub fn replace(&mut self, vertices: &[V], triangles: &[Triangle])
        ensures
            final(self)@ == old(self)@.replaced(vertices@, triangles@),
    {
        self.vertices = copy_slice(vertices);
        self.triangles = copy_slice(triangles);
        self.breaklines = Vec::new();
        self.boundary = None;
    }
}

/// The first position that joins `a` and `b` is the one that
/// `first_edge` names.
pub proof fn lemma_first_edge_unique(bls: Seq<(usize, usize)>, a: usize, b: usize, k: int)
    requires
        first_edge_at(bls, a, b, k),
    ensures
        first_edge(bls, a, b) == k,
{
    let c = first_edge(bls, a, b);
    assert(first_edge_at(bls, a, b, c));
    if c < k {
        assert(!same_edge(bls[c], a, b));
    } else if c > k {
        assert(!same_edge(bls[k], a, b));
    }
}

/// Removing a breakline right after adding it gives the surface back,
/// where the two vertices were not joined already.
pub proof fn law_remove_breakline_undoes_add<V>(s: SurfaceView<V>, a: usize, b: usize)
    requires
        !has_edge(s.breaklines, a, b),
    ensures
        s.with_breakline(a, b).without_breakline(a, b) == s,
{
    if a < s.vertices.len() && b < s.vertices.len() {
        let bls = s.breaklines.push((a, b));
        let k = s.breaklines.len() as int;
        assert(same_edge(bls[k], a, b));
        assert forall|j: int| 0 <= j < k implies !#[trigger] same_edge(bls[j], a, b) by {
            assert(bls[j] == s.breaklines[j]);
            if same_edge(bls[j], a, b) {
                assert(same_edge(s.breaklines[j], a, b));
            }
        }
        assert(first_edge_at(bls, a, b, k));
        lemma_first_edge_unique(bls, a, b, k);
        assert(bls.remove(k) =~= s.breaklines);
    }
}

proof fn lemma_delete_past_end(tris: Seq<Triangle>, n: nat)
    requires
        tris_in_range(tris, n),
        n <= usize::MAX,
    ensures
        tris_after_delete(tris, n as usize) == tris,
    decreases tris.len(),
{
    if tris.len() > 0 {
        let t = tris.last();
        assert(tri_in_range(tris[tris.len() - 1], n));
        assert(tris_in_range(tris.drop_last(), n)) by {
            assert forall|i: int| 0 <= i < tris.drop_last().len() implies #[trigger] tri_in_range(
                tris.drop_last()[i],
                n,
            ) by {
                assert(tri_in_range(tris[i], n));
            }
        }
        lemma_delete_past_end(tris.drop_last(), n);
        assert(shift_tri(t, n as usize) =~= t);
        assert(tris.drop_last().push(t) =~= tris);
    }
}

/// Deleting a vertex right after adding it gives the surface back, where
/// the triangles refer to vertices of the surface.
pub proof fn law_delete_vertex_undoes_add<V>(s: SurfaceView<V>, p: V)
    requires
        s.triangles_valid(),
        s.vertices.len() < usize::MAX,
    ensures
        s.with_vertex(p).without_vertex(s.vertices.len() as usize) == s,
{
    lemma_delete_past_end(s.triangles, s.vertices.len());
    assert(s.vertices.push(p).remove(s.vertices.len() as int) =~= s.vertices);
}

/// Deleting a triangle right after adding it gives the surface back.
pub proof fn law_delete_triangle_undoes_add<V>(s: SurfaceView<V>, t: Triangle)
    requires
        s.triangles.len() < usize::MAX,
    ensures
        s.with_triangle(t).without_triangle(s.triangles.len() as usize) == s,
{
    assert(s.triangles.push(t).remove(s.triangles.len() as int) =~= s.triangles);
}

/// Deleting a vertex keeps the remaining triangles on the remaining
/// vertices.
pub proof fn lemma_delete_keeps_in_range(tris: Seq<Triangle>, n: nat, idx: usize)
    requires
        tris_in_range(tris, n),
        idx < n,
    ensures
        tris_in_range(tris_after_delete(tris, idx), (n - 1) as nat),
    decreases tris.len(),
{
    if tris.len() > 0 {
        let init = tris.drop_last();
        assert forall|i: int| 0 <= i < init.len() implies #[trigger] tri_in_range(init[i], n) by {
            assert(tri_in_range(tris[i], n));
        }
        lemma_delete_keeps_in_range(init, n, idx);
        assert(tri_in_range(tris[tris.len() - 1], n));
    }
}

/// A copy of the slice in a new vector.
pub fn copy_slice<T: Copy>(s: &[T]) -> (v: Vec<T>)
    ensures
        v@ == s@,
{
    let mut v: Vec<T> = Vec::new();
    let mut i: usize = 0;
    while i < s.len()
        invariant
            i <= s@.len(),
            v@ == s@.take(i as int),
        decreases s@.len() - i,
    {
        v.push(s[i]);
        i = i + 1;
        assert(v@ =~= s@.take(i as int));
    }
    assert(s@.take(s@.len() as int) =~= s@);
    v
}

/// Whether the triangle uses the vertex `idx`.
pub fn triangle_uses(t: &Triangle, idx: usize) -> (r: bool)
    ensures
        r == tri_uses(*t, idx),
{
    t[0] == idx || t[1] == idx || t[2] == idx
}

fn shift(v: usize, idx: usize) -> (r: usize)
    ensures
        r == shift_index(v, idx),
{
    if v > idx {
        v - 1
    } else {
        v
    }
}

/// The triangles that remain after the vertex `idx` is deleted.
pub fn delete_from_triangles(tris: &Vec<Triangle>, idx: usize) -> (r: Vec<Triangle>)
    ensures
        r@ == tris_after_delete(tris@, idx),
{
    let mut r: Vec<Triangle> = Vec::new();
    let mut i: usize = 0;
    while i < tris.len()
        invariant
            i <= tris@.len(),
            r@ == tris_after_delete(tris@.take(i as int), idx),
        decreases tris@.len() - i,
    {
        let t = tris[i];
        assert(tris@.take(i + 1).drop_last() =~= tris@.take(i as int));
        if !triangle_uses(&t, idx) {
            r.push([shift(t[0], idx), shift(t[1], idx), shift(t[2], idx)]);
        }
        i = i + 1;
    }
    assert(tris@.take(tris@.len() as int) =~= tris@);
    r
}

/// Whether some breakline of `bls` joins `a` and `b`.
pub fn contains_edge(bls: &Vec<(usize, usize)>, a: usize, b: usize) -> (r: bool)
    ensures
        r == has_edge(bls@, a, b),
{
    match edge_position(bls, a, b) {
        Some(_) => true,
        None => false,
    }
}

/// The first position of a breakline that joins `a` and `b`.
pub fn edge_position(bls: &Vec<(usize, usize)>, a: usize, b: usize) -> (r: Option<usize>)
    ensures
        r is Some <==> has_edge(bls@, a, b),
        r matches Some(k) ==> first_edge_at(bls@, a, b, k as int),
{
    let mut i: usize = 0;
    while i < bls.len()
        invariant
            i <= bls@.len(),
            forall|j: int| 0 <= j < i ==> !#[trigger] same_edge(bls@[j], a, b),
        decreases bls@.len() - i,
    {
        let (x, y) = bls[i];
        if (x == a && y == b) || (x == b && y == a) {
            assert(same_edge(bls@[i as int], a, b));
            return Some(i);
        }
        i = i + 1;
    }
    None
}

/// Whether every index of `idxs` is below `n`.
pub fn indices_below(idxs: &Vec<usize>, n: usize) -> (r: bool)
    ensures
        r == all_below(idxs@, n as nat),
{
    let mut i: usize = 0;
    while i < idxs.len()
        invariant
            i <= idxs@.len(),
            forall|j: int| 0 <= j < i ==> #[trigger] idxs@[j] < n,
        decreases idxs@.len() - i,
    {
        if idxs[i] >= n {
            return false;
        }
        i = i + 1;
    }
    true
}

} // verus!
