use vstd::prelude::*;

use crate::mesh::{copy_slice, delete_from_triangles, tri_in_range, tris_after_delete, Triangle};

verus! {

/// A table of objects under stable ids: an object's id is the slot it was
/// put in, and removing it leaves the slot empty, so no other id changes
/// and no id is given out twice.
pub struct SlotTable<T> {
    slots: Vec<Option<T>>,
}

impl<T> View for SlotTable<T> {
    type V = Seq<Option<T>>;

    closed spec fn view(&self) -> Seq<Option<T>> {
        self.slots@
    }
}

impl<T> SlotTable<T> {
    /// An empty table.
    pub fn new() -> (t: Self)
        ensures
            t@ == Seq::<Option<T>>::empty(),
    {
        SlotTable { slots: Vec::new() }
    }

    /// The number of slots given out so far.
    pub fn len(&self) -> (n: usize)
        ensures
            n == self@.len(),
    {
        self.slots.len()
    }

    /// Puts `x` in a new slot and returns its id.
    pub fn add(&mut self, x: T) -> (id: usize)
        ensures
            final(self)@ == old(self)@.push(Some(x)),
            id == old(self)@.len(),
    {
        self.slots.push(Some(x));
        self.slots.len() - 1
    }

    /// Takes the object out of slot `id`, leaving the slot empty; an empty
    /// or unknown slot gives `None` and changes nothing.
    pub fn take(&mut self, id: usize) -> (r: Option<T>)
        ensures
            id < old(self)@.len() ==> final(self)@ == old(self)@.update(id as int, None) && r
                == old(self)@[id as int],
            id >= old(self)@.len() ==> final(self)@ == old(self)@ && r is None,
    {
        if id < self.slots.len() {
            let mut slot: Option<T> = None;
            self.slots.set_and_swap(id, &mut slot);
            slot
        } else {
            None
        }
    }

    /// The object in slot `id`, if the slot is in use.
    pub fn get(&self, id: usize) -> (r: Option<&T>)
        ensures
            r == (if id < self@.len() {
                match self@[id as int] {
                    Some(x) => Some(&x),
                    None => None,
                }
            } else {
                None
            }),
    {
        if id < self.slots.len() {
            match &self.slots[id] {
                Some(x) => Some(x),
                None => None,
            }
        } else {
            None
        }
    }

    /// Replaces the object in slot `id` when the slot is in use; returns
    /// the object it held, or gives `x` back when the slot is empty or
    /// unknown.
    pub fn replace(&mut self, id: usize, x: T) -> (r: Result<T, T>)
        ensures
            id < old(self)@.len() && old(self)@[id as int] is Some ==> final(self)@ == old(self)@.update(id as int, Some(x)) && r == Ok::<T, T>(old(self)@[id as int]->0),
            !(id < old(self)@.len() && old(self)@[id as int] is Some) ==> final(self)@ == old(self)@ && r == Err::<T, T>(x),
    {
        if id < self.slots.len() && self.slots[id].is_some() {
            let mut slot: Option<T> = Some(x);
            self.slots.set_and_swap(id, &mut slot);
            Ok(slot.unwrap())
        } else {
            Err(x)
        }
    }

    /// Empties the table.
    pub fn clear(&mut self)
        ensures
            final(self)@ == Seq::<Option<T>>::empty(),
    {
        self.slots.clear();
    }
}

/// Taking an object out of its slot leaves every other slot as it was.
pub proof fn law_take_keeps_other_ids<T>(slots: Seq<Option<T>>, id: usize, other: int)
    requires
        id < slots.len(),
        0 <= other < slots.len(),
        other != id,
    ensures
        slots.update(id as int, None)[other] == slots[other],
        slots.update(id as int, None).len() == slots.len(),
{
}

/// An object put in a table is found under the id it was given, and
/// taking it out gives it back and leaves its slot empty for good: the
/// next id handed out is a new one.
pub proof fn law_take_returns_added<T>(slots: Seq<Option<T>>, x: T)
    ensures
        ({
            let id = slots.len() as int;
            let after = slots.push(Some(x));
            &&& after[id] == Some(x)
            &&& after.update(id, None)[id] is None
            &&& after.update(id, None).len() == id + 1
        }),
{
}

/// A surface as the render engine keeps it: its vertices and triangles,
/// and the render instance made from them (of type `I`).
pub struct EngineSurface<V, I> {
    pub instance: I,
    pub vertices: Vec<V>,
    pub triangles: Vec<Triangle>,
}

/// The vertices and triangles of an engine surface.
pub struct MeshView<V> {
    pub vertices: Seq<V>,
    pub triangles: Seq<Triangle>,
}

/// The mesh of a surface slot.
pub open spec fn slot_mesh<V, I>(slot: Option<EngineSurface<V, I>>) -> Option<MeshView<V>> {
    match slot {
        Some(s) => Some(MeshView { vertices: s.vertices@, triangles: s.triangles@ }),
        None => None,
    }
}

/// The render engine's surfaces, under stable ids.  Every edit that
/// changes a mesh reports it, so that the caller can remake the render
/// instance with `replace_instance`.
pub struct SurfaceTable<V, I> {
    pub slots: SlotTable<EngineSurface<V, I>>,
}

/// The meshes of the table, slot by slot.
pub open spec fn meshes<V, I>(t: Seq<Option<EngineSurface<V, I>>>) -> Seq<Option<MeshView<V>>> {
    t.map_values(|s: Option<EngineSurface<V, I>>| slot_mesh(s))
}

/// The render instance of a surface slot.
pub open spec fn slot_instance<V, I>(slot: Option<EngineSurface<V, I>>) -> Option<I> {
    match slot {
        Some(s) => Some(s.instance),
        None => None,
    }
}

/// The render instances of the table, slot by slot.
pub open spec fn instances<V, I>(t: Seq<Option<EngineSurface<V, I>>>) -> Seq<Option<I>> {
    t.map_values(|s: Option<EngineSurface<V, I>>| slot_instance(s))
}

/// The table with the mesh of surface `id` replaced by `m`.
pub open spec fn with_mesh<V>(t: Seq<Option<MeshView<V>>>, id: usize, m: MeshView<V>) -> Seq<
    Option<MeshView<V>>,
> {
    t.update(id as int, Some(m))
}

/// Whether `id` names a surface in use.
pub open spec fn live<V>(t: Seq<Option<MeshView<V>>>, id: usize) -> bool {
    id < t.len() && t[id as int] is Some
}

impl<V: Copy, I> SurfaceTable<V, I> {
    /// The meshes of the table, slot by slot.
    pub open spec fn mesh_view(&self) -> Seq<Option<MeshView<V>>> {
        meshes(self.slots@)
    }

    /// The render instances of the table, slot by slot.
    pub open spec fn instance_view(&self) -> Seq<Option<I>> {
        instances(self.slots@)
    }

    /// An empty table.
    pub fn new() -> (t: Self)
        ensures
            t.mesh_view() == Seq::<Option<MeshView<V>>>::empty(),
            t.instance_view() == Seq::<Option<I>>::empty(),
    {
        let t = SurfaceTable { slots: SlotTable::new() };
        assert(t.mesh_view() =~= Seq::<Option<MeshView<V>>>::empty());
        assert(t.instance_view() =~= Seq::<Option<I>>::empty());
        t
    }

    /// Adds a surface with its render instance and returns its id.
    pub fn add_surface(&mut self, vertices: &[V], triangles: &[Triangle], instance: I) -> (id:
        usize)
        ensures
            final(self).mesh_view() == old(self).mesh_view().push(
                Some(MeshView { vertices: vertices@, triangles: triangles@ }),
            ),
            final(self).instance_view() == old(self).instance_view().push(Some(instance)),
            id == old(self).mesh_view().len(),
    {
        let ghost inst = instance;
        let s = EngineSurface {
            instance,
            vertices: copy_slice(vertices),
            triangles: copy_slice(triangles),
        };
        let id = self.slots.add(s);
        assert(self.mesh_view() =~= old(self).mesh_view().push(
            Some(MeshView { vertices: vertices@, triangles: triangles@ }),
        ));
        assert(self.instance_view() =~= old(self).instance_view().push(Some(inst)));
        id
    }

    /// Takes surface `id` out of the table (its id is not reused).
    pub fn remove_surface(&mut self, id: usize) -> (r: Option<EngineSurface<V, I>>)
        ensures
            id < old(self).mesh_view().len() ==> final(self).mesh_view() == old(self).mesh_view().update(id as int, None) && slot_mesh(r) == old(self).mesh_view()[id as int],
            id < old(self).mesh_view().len() ==> final(self).instance_view() == old(self).instance_view().update(id as int, None) && slot_instance(r) == old(self).instance_view()[id as int],
            id >= old(self).mesh_view().len() ==> final(self).mesh_view() == old(self).mesh_view() && final(self).instance_view() == old(self).instance_view() && r is None,
    {
        let r = self.slots.take(id);
        assert(self.mesh_view() =~= (if id < old(self).mesh_view().len() {
            old(self).mesh_view().update(id as int, None)
        } else {
            old(self).mesh_view()
        }));
        assert(self.instance_view() =~= (if id < old(self).mesh_view().len() {
            old(self).instance_view().update(id as int, None)
        } else {
            old(self).instance_view()
        }));
        r
    }

    /// Takes surface `id` out of its slot for an edit, leaving the slot
    /// empty; a slot not in use gives `None` and changes nothing.
    fn take_for_edit(&mut self, id: usize) -> (r: Option<EngineSurface<V, I>>)
        ensures
            live(old(self).mesh_view(), id) ==> r is Some && slot_mesh(r) == old(self).mesh_view()[id as int] && final(self).mesh_view() == old(self).mesh_view().update(
                id as int,
                None,
            ),
            live(old(self).mesh_view(), id) ==> slot_instance(r) == old(self).instance_view()[id as int] && final(self).instance_view() == old(self).instance_view().update(
                id as int,
                None,
            ),
            !live(old(self).mesh_view(), id) ==> r is None && final(self).mesh_view() == old(self).mesh_view() && final(self).instance_view() == old(self).instance_view(),
    {
        let r = self.slots.take(id);
        assert(self.mesh_view() =~= (if id < old(self).mesh_view().len() {
            old(self).mesh_view().update(id as int, None)
        } else {
            old(self).mesh_view()
        }));
        assert(self.instance_view() =~= (if id < old(self).mesh_view().len() {
            old(self).instance_view().update(id as int, None)
        } else {
            old(self).instance_view()
        }));
        proof {
            if id < old(self).slots@.len() && r is None {
                assert(self.mesh_view() =~= old(self).mesh_view());
                assert(self.instance_view() =~= old(self).instance_view());
            }
        }
        r
    }

    /// Puts an edited surface back in its (emptied) slot.
    fn put_back(&mut self, id: usize, s: EngineSurface<V, I>)
        requires
            id < old(self).mesh_view().len(),
            old(self).mesh_view()[id as int] is None,
        ensures
            final(self).mesh_view() == old(self).mesh_view().update(
                id as int,
                slot_mesh(Some(s)),
            ),
            final(self).instance_view() == old(self).instance_view().update(
                id as int,
                slot_instance(Some(s)),
            ),
    {
        let slot = Some(s);
        let ghost s_view = slot_mesh(slot);
        let ghost s_inst = slot_instance(slot);
        self.put_slot(id, slot);
        assert(self.mesh_view() =~= old(self).mesh_view().update(id as int, s_view));
        assert(self.instance_view() =~= old(self).instance_view().update(id as int, s_inst));
    }

    fn put_slot(&mut self, id: usize, slot: Option<EngineSurface<V, I>>)
        requires
            id < old(self).slots@.len(),
        ensures
            final(self).slots@ == old(self).slots@.update(id as int, slot),
    {
        self.slots.put(id, slot);
    }

    /// Appends a vertex to surface `id` and returns its index, or `None`
    /// when the surface is not in use.
    pub fn add_surface_vertex(&mut self, id: usize, v: V) -> (r: Option<usize>)
        ensures
            live(old(self).mesh_view(), id) ==> {
                let m = old(self).mesh_view()[id as int]->0;
                &&& final(self).mesh_view() == with_mesh(
                    old(self).mesh_view(),
                    id,
                    MeshView { vertices: m.vertices.push(v), ..m },
                )
                &&& r == Some(m.vertices.len() as usize)
            },
            !live(old(self).mesh_view(), id) ==> final(self).mesh_view() == old(self).mesh_view()
                && r is None,
            final(self).instance_view() == old(self).instance_view(),
    {
        match self.take_for_edit(id) {
            Some(mut s) => {
                s.vertices.push(v);
                let idx = s.vertices.len() - 1;
                self.put_back(id, s);
                Some(idx)
            },
            None => None,
        }
    }

    /// Moves vertex `vid` of surface `id` to `v`; reports whether anything
    /// changed (the surface is in use and has that vertex).
    pub fn move_surface_vertex(&mut self, id: usize, vid: usize, v: V) -> (changed: bool)
        ensures
            changed == (live(old(self).mesh_view(), id) && vid < old(self).mesh_view()[id as int]->0.vertices.len()),
            changed ==> {
                let m = old(self).mesh_view()[id as int]->0;
                final(self).mesh_view() == with_mesh(
                    old(self).mesh_view(),
                    id,
                    MeshView { vertices: m.vertices.update(vid as int, v), ..m },
                )
            },
            !changed ==> final(self).mesh_view() == old(self).mesh_view(),
            final(self).instance_view() == old(self).instance_view(),
    {
        match self.take_for_edit(id) {
            Some(mut s) => {
                if vid < s.vertices.len() {
                    s.vertices.set(vid, v);
                    self.put_back(id, s);
                    true
                } else {
                    self.put_back(id, s);
                    assert(self.mesh_view() =~= old(self).mesh_view());
                    false
                }
            },
            None => false,
        }
    }

    /// Deletes vertex `vid` of surface `id`, with the triangles that use
    /// it, renumbering the others; reports whether anything changed.
    pub fn delete_surface_vertex(&mut self, id: usize, vid: usize) -> (changed: bool)
        ensures
            changed == (live(old(self).mesh_view(), id) && vid < old(self).mesh_view()[id as int]->0.vertices.len()),
            changed ==> {
                let m = old(self).mesh_view()[id as int]->0;
                final(self).mesh_view() == with_mesh(
                    old(self).mesh_view(),
                    id,
                    MeshView {
                        vertices: m.vertices.remove(vid as int),
                        triangles: tris_after_delete(m.triangles, vid),
                    },
                )
            },
            !changed ==> final(self).mesh_view() == old(self).mesh_view(),
            final(self).instance_view() == old(self).instance_view(),
    {
        match self.take_for_edit(id) {
            Some(mut s) => {
                if vid < s.vertices.len() {
                    s.vertices.remove(vid);
                    let kept = delete_from_triangles(&s.triangles, vid);
                    s.triangles = kept;
                    self.put_back(id, s);
                    true
                } else {
                    self.put_back(id, s);
                    assert(self.mesh_view() =~= old(self).mesh_view());
                    false
                }
            },
            None => false,
        }
    }

    /// Appends the triangle to surface `id` when all its indices are
    /// vertices of that surface; reports whether it did.
    pub fn add_surface_triangle(&mut self, id: usize, tri: Triangle) -> (changed: bool)
        ensures
            changed == (live(old(self).mesh_view(), id) && tri_in_range(
                tri,
                old(self).mesh_view()[id as int]->0.vertices.len(),
            )),
            changed ==> {
                let m = old(self).mesh_view()[id as int]->0;
                final(self).mesh_view() == with_mesh(
                    old(self).mesh_view(),
                    id,
                    MeshView { triangles: m.triangles.push(tri), ..m },
                )
            },
            !changed ==> final(self).mesh_view() == old(self).mesh_view(),
            final(self).instance_view() == old(self).instance_view(),
    {
        match self.take_for_edit(id) {
            Some(mut s) => {
                let n = s.vertices.len();
                if tri[0] < n && tri[1] < n && tri[2] < n {
                    s.triangles.push(tri);
                    self.put_back(id, s);
                    true
                } else {
                    self.put_back(id, s);
                    assert(self.mesh_view() =~= old(self).mesh_view());
                    false
                }
            },
            None => false,
        }
    }

    /// Deletes triangle `tid` of surface `id`; reports whether anything
    /// changed.
    pub fn delete_surface_triangle(&mut self, id: usize, tid: usize) -> (changed: bool)
        ensures
            changed == (live(old(self).mesh_view(), id) && tid < old(self).mesh_view()[id as int]->0.triangles.len()),
            changed ==> {
                let m = old(self).mesh_view()[id as int]->0;
                final(self).mesh_view() == with_mesh(
                    old(self).mesh_view(),
                    id,
                    MeshView { triangles: m.triangles.remove(tid as int), ..m },
                )
            },
            !changed ==> final(self).mesh_view() == old(self).mesh_view(),
            final(self).instance_view() == old(self).instance_view(),
    {
        match self.take_for_edit(id) {
            Some(mut s) => {
                if tid < s.triangles.len() {
                    s.triangles.remove(tid);
                    self.put_back(id, s);
                    true
                } else {
                    self.put_back(id, s);
                    assert(self.mesh_view() =~= old(self).mesh_view());
                    false
                }
            },
            None => false,
        }
    }

    /// Replaces the vertices and triangles of surface `id`; reports whether
    /// the surface is in use.
    pub fn update_surface(&mut self, id: usize, vertices: &[V], triangles: &[Triangle]) -> (changed:
        bool)
        ensures
            changed == live(old(self).mesh_view(), id),
            changed ==> final(self).mesh_view() == with_mesh(
                old(self).mesh_view(),
                id,
                MeshView { vertices: vertices@, triangles: triangles@ },
            ),
            !changed ==> final(self).mesh_view() == old(self).mesh_view(),
            final(self).instance_view() == old(self).instance_view(),
    {
        match self.take_for_edit(id) {
            Some(mut s) => {
                s.vertices = copy_slice(vertices);
                s.triangles = copy_slice(triangles);
                self.put_back(id, s);
                true
            },
            None => false,
        }
    }

    /// Installs `inst` as the render instance of surface `id`, made anew
    /// after an edit of its mesh, and returns the instance it replaces;
    /// a surface not in use gives `inst` back and nothing changes.
    pub fn replace_instance(&mut self, id: usize, inst: I) -> (r: Result<I, I>)
        ensures
            live(old(self).mesh_view(), id) ==> {
                &&& final(self).instance_view() == old(self).instance_view().update(
                    id as int,
                    Some(inst),
                )
                &&& Some(r->Ok_0) == old(self).instance_view()[id as int]
                &&& r is Ok
            },
            !live(old(self).mesh_view(), id) ==> final(self).instance_view()
                == old(self).instance_view() && r == Err::<I, I>(inst),
            final(self).mesh_view() == old(self).mesh_view(),
    {
        match self.take_for_edit(id) {
            Some(mut s) => {
                let mut new_inst = inst;
                std::mem::swap(&mut s.instance, &mut new_inst);
                self.put_back(id, s);
                assert(self.mesh_view() =~= old(self).mesh_view());
                Ok(new_inst)
            },
            None => Err(inst),
        }
    }
}

impl<T> SlotTable<T> {
    /// Sets slot `id`, which exists, to `slot`.
    fn put(&mut self, id: usize, slot: Option<T>)
        requires
            id < old(self)@.len(),
        ensures
            final(self)@ == old(self)@.update(id as int, slot),
    {
        self.slots.set(id, slot);
    }
}

} // verus!
