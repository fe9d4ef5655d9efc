use vstd::prelude::*;

verus! {

/// Whether anything is selected: points, lines, polygons, polylines, arcs
/// or dimensions.
pub fn has_selection<L>(
    pts: &Vec<usize>,
    lines: &Vec<L>,
    polys: &Vec<usize>,
    plines: &Vec<usize>,
    arcs: &Vec<usize>,
    dims: &Vec<usize>,
) -> (r: bool)
    ensures
        r == (pts@.len() > 0 || lines@.len() > 0 || polys@.len() > 0 || plines@.len() > 0
            || arcs@.len() > 0 || dims@.len() > 0),
{
    !pts.is_empty() || !lines.is_empty() || !polys.is_empty() || !plines.is_empty()
        || !arcs.is_empty() || !dims.is_empty()
}

/// `s` padded with `d` until it has an element `idx`.
pub open spec fn padded<T>(s: Seq<T>, idx: usize, d: T) -> Seq<T> {
    if s.len() > idx {
        s
    } else {
        s + Seq::new((idx + 1 - s.len()) as nat, |i: int| d)
    }
}

/// The length of a column of length `len` padded until it has an element
/// `idx`.
pub open spec fn padded_len(len: nat, idx: usize) -> int {
    if len > idx {
        len as int
    } else {
        idx + 1
    }
}

/// Pads the column with `d` until it has an element `idx`.
pub fn pad_to_index<T: Copy>(v: &mut Vec<T>, idx: usize, d: T)
    requires
        idx < usize::MAX,
    ensures
        final(v)@ == padded(old(v)@, idx, d),
{
    let ghost start = v@;
    while v.len() <= idx
        invariant
            idx < usize::MAX,
            start.len() <= v@.len() <= (if start.len() > idx {
                start.len() as int
            } else {
                idx + 1
            }),
            v@ == start + Seq::new((v@.len() - start.len()) as nat, |i: int| d),
        decreases idx + 1 - v@.len(),
    {
        v.push(d);
        assert(v@ =~= start + Seq::new((v@.len() - start.len()) as nat, |i: int| d));
    }
    assert(v@ =~= padded(start, idx, d));
}

/// Pads the text column with empty texts until it has an element `idx`.
pub fn pad_texts_to_index(v: &mut Vec<String>, idx: usize)
    requires
        idx < usize::MAX,
    ensures
        final(v)@.len() == (if old(v)@.len() > idx {
            old(v)@.len() as int
        } else {
            idx + 1
        }),
        forall|i: int| 0 <= i < old(v)@.len() ==> #[trigger] final(v)@[i] == old(v)@[i],
        forall|i: int| old(v)@.len() <= i < final(v)@.len() ==> (#[trigger] final(v)@[i])@
            == Seq::<char>::empty(),
{
    let ghost start = v@;
    while v.len() <= idx
        invariant
            idx < usize::MAX,
            start.len() <= v@.len() <= (if start.len() > idx {
                start.len() as int
            } else {
                idx + 1
            }),
            forall|i: int| 0 <= i < start.len() ==> #[trigger] v@[i] == start[i],
            forall|i: int| start.len() <= i < v@.len() ==> (#[trigger] v@[i])@ == Seq::<
                char,
            >::empty(),
        decreases idx + 1 - v@.len(),
    {
        v.push(String::new());
    }
}

/// Sets element `idx` of the column when there is one.
pub fn set_if_present<T>(v: &mut Vec<T>, idx: usize, x: T)
    ensures
        final(v)@ == (if idx < old(v)@.len() {
            old(v)@.update(idx as int, x)
        } else {
            old(v)@
        }),
{
    if idx < v.len() {
        v.set(idx, x);
    }
}

/// The attributes that the inspector edits for points, one column per
/// attribute, indexed by point.
pub struct PointAttributes {
    pub layers: Vec<usize>,
    pub styles: Vec<usize>,
    pub metadata: Vec<String>,
    pub elevation: Vec<String>,
    pub measurement: Vec<String>,
    pub data_sets: Vec<usize>,
}

impl PointAttributes {
    /// Every column has an element for point `idx`.
    pub open spec fn has_row(&self, idx: usize) -> bool {
        &&& idx < self.layers@.len()
        &&& idx < self.styles@.len()
        &&& idx < self.metadata@.len()
        &&& idx < self.elevation@.len()
        &&& idx < self.measurement@.len()
        &&& idx < self.data_sets@.len()
    }

    /// Pads every column (layer, style and data set with 0, the texts with
    /// empty ones) so that point `idx` has all its attributes, before the
    /// inspector opens on it; existing values stay.
    pub fn ensure_row(&mut self, idx: usize)
        requires
            idx < usize::MAX,
        ensures
            final(self).has_row(idx),
            final(self).layers@ == padded(old(self).layers@, idx, 0),
            final(self).styles@ == padded(old(self).styles@, idx, 0),
            final(self).metadata@.len() == padded_len(old(self).metadata@.len(), idx),
            final(self).elevation@.len() == padded_len(old(self).elevation@.len(), idx),
            final(self).measurement@.len() == padded_len(old(self).measurement@.len(), idx),
            final(self).data_sets@ == padded(old(self).data_sets@, idx, 0),
            forall|i: int| 0 <= i < old(self).metadata@.len() ==> #[trigger] final(self).metadata@[i] == old(self).metadata@[i],
            forall|i: int| 0 <= i < old(self).elevation@.len() ==> #[trigger] final(self).elevation@[i] == old(self).elevation@[i],
            forall|i: int| 0 <= i < old(self).measurement@.len() ==> #[trigger] final(self).measurement@[i] == old(self).measurement@[i],
            forall|i: int| old(self).metadata@.len() <= i < final(self).metadata@.len() ==> (#[trigger] final(self).metadata@[i])@ == Seq::<char>::empty(),
            forall|i: int| old(self).elevation@.len() <= i < final(self).elevation@.len() ==> (#[trigger] final(self).elevation@[i])@ == Seq::<char>::empty(),
            forall|i: int| old(self).measurement@.len() <= i < final(self).measurement@.len() ==> (#[trigger] final(self).measurement@[i])@ == Seq::<char>::empty(),
    {
        pad_to_index(&mut self.layers, idx, 0);
        pad_to_index(&mut self.styles, idx, 0);
        pad_texts_to_index(&mut self.metadata, idx);
        pad_texts_to_index(&mut self.elevation, idx);
        pad_texts_to_index(&mut self.measurement, idx);
        pad_to_index(&mut self.data_sets, idx, 0);
    }
}

/// The attributes that the inspector edits for polygons.
pub struct PolygonAttributes {
    pub layers: Vec<usize>,
    pub hatches: Vec<usize>,
    pub measurement: Vec<String>,
    pub data_sets: Vec<usize>,
}

impl PolygonAttributes {
    /// Every column has an element for polygon `idx`.
    pub open spec fn has_row(&self, idx: usize) -> bool {
        &&& idx < self.layers@.len()
        &&& idx < self.hatches@.len()
        &&& idx < self.measurement@.len()
        &&& idx < self.data_sets@.len()
    }

    /// Pads every column so that polygon `idx` has all its attributes;
    /// existing values stay.
    pub fn ensure_row(&mut self, idx: usize)
        requires
            idx < usize::MAX,
        ensures
            final(self).has_row(idx),
            final(self).layers@ == padded(old(self).layers@, idx, 0),
            final(self).hatches@ == padded(old(self).hatches@, idx, 0),
            final(self).measurement@.len() == padded_len(old(self).measurement@.len(), idx),
            final(self).data_sets@ == padded(old(self).data_sets@, idx, 0),
            forall|i: int| 0 <= i < old(self).measurement@.len() ==> #[trigger] final(self).measurement@[i] == old(self).measurement@[i],
            forall|i: int| old(self).measurement@.len() <= i < final(self).measurement@.len() ==> (#[trigger] final(self).measurement@[i])@ == Seq::<char>::empty(),
    {
        pad_to_index(&mut self.layers, idx, 0);
        pad_to_index(&mut self.hatches, idx, 0);
        pad_texts_to_index(&mut self.measurement, idx);
        pad_to_index(&mut self.data_sets, idx, 0);
    }
}

} // verus!
