//! Surfaces: ids handed out in increasing order, roles, position and size.

use vstd::prelude::*;

verus! {

#[derive(Debug, Clone, Copy, PartialEq, Eq, Hash, Structural)]
pub struct SurfaceId(pub u32);

impl SurfaceId {
    pub fn new(id: u32) -> (r: Self)
        ensures
            r.0 == id,
    {
        SurfaceId(id)
    }

    pub fn as_u32(&self) -> (r: u32)
        ensures
            r == self.0,
    {
        self.0
    }
}

#[derive(Debug, Clone, Copy, PartialEq, Eq, Structural)]
pub enum SurfaceRole {
    Toplevel,
    Popup,
    Subsurface,
    Layer,
    Cursor,
}

#[derive(Debug, Clone)]
pub struct OblivionSurface {
    pub id: SurfaceId,
    pub role: SurfaceRole,
    pub parent: Option<SurfaceId>,
    pub children: Vec<SurfaceId>,
    pub x: i32,
    pub y: i32,
    pub width: u32,
    pub height: u32,
}

impl OblivionSurface {
    /// A surface at the origin, without size, parent or children.
    pub fn new(id: SurfaceId, role: SurfaceRole) -> (s: Self)
        ensures
            s.id == id,
            s.role == role,
            s.parent is None,
            s.children@ == Seq::<SurfaceId>::empty(),
            s.x == 0 && s.y == 0 && s.width == 0 && s.height == 0,
    {
        OblivionSurface {
            id,
            role,
            parent: None,
            children: Vec::new(),
            x: 0,
            y: 0,
            width: 0,
            height: 0,
        }
    }

    pub fn set_position(&mut self, x: i32, y: i32)
        ensures
            final(self).x == x,
            final(self).y == y,
            final(self).id == old(self).id,
            final(self).role == old(self).role,
            final(self).parent == old(self).parent,
            final(self).children@ == old(self).children@,
            final(self).width == old(self).width,
            final(self).height == old(self).height,
    {
        self.x = x;
        self.y = y;
    }

    pub fn set_size(&mut self, width: u32, height: u32)
        ensures
            final(self).width == width,
            final(self).height == height,
            final(self).id == old(self).id,
            final(self).role == old(self).role,
            final(self).parent == old(self).parent,
            final(self).children@ == old(self).children@,
            final(self).x == old(self).x,
            final(self).y == old(self).y,
    {
        self.width = width;
        self.height = height;
    }
}

/// The ids of a list of surfaces.
pub open spec fn surface_ids(s: Seq<OblivionSurface>) -> Seq<u32> {
    s.map_values(|x: OblivionSurface| x.id.0)
}

/// The toplevel surfaces of `s`, in order.
pub open spec fn toplevels_of(s: Seq<OblivionSurface>) -> Seq<OblivionSurface>
    decreases s.len(),
{
    if s.len() == 0 {
        Seq::empty()
    } else if s.last().role == SurfaceRole::Toplevel {
        toplevels_of(s.drop_last()).push(s.last())
    } else {
        toplevels_of(s.drop_last())
    }
}

/// The surfaces a list of references points to.
pub open spec fn derefs(r: Seq<&OblivionSurface>) -> Seq<OblivionSurface> {
    r.map_values(|x: &OblivionSurface| *x)
}

#[derive(Debug, Clone)]
pub struct SurfaceTree {
    surfaces: Vec<OblivionSurface>,
    next_id: u32,
}

impl SurfaceTree {
    /// The surfaces, in order of creation.
    pub closed spec fn surfaces_view(&self) -> Seq<OblivionSurface> {
        self.surfaces@
    }

    pub closed spec fn next_id_view(&self) -> u32 {
        self.next_id
    }

    /// Surface ids strictly increase and stay below the next id.
    pub open spec fn wf(&self) -> bool {
        &&& forall|i: int, j: int|
            0 <= i < j < self.surfaces_view().len() ==> self.surfaces_view()[i].id.0
                < self.surfaces_view()[j].id.0
        &&& forall|i: int|
            0 <= i < self.surfaces_view().len() ==> #[trigger] self.surfaces_view()[i].id.0
                < self.next_id_view()
    }

    pub fn new() -> (t: Self)
        ensures
            t.wf(),
            t.surfaces_view().len() == 0,
            t.next_id_view() == 1,
    {
        SurfaceTree { surfaces: Vec::new(), next_id: 1 }
    }

    /// Add a surface with role `role` under the next id.
    pub fn add_surface(&mut self, role: SurfaceRole) -> (id: SurfaceId)
        requires
            old(self).wf(),
            old(self).next_id_view() < u32::MAX,
        ensures
            final(self).wf(),
            id.0 == old(self).next_id_view(),
            final(self).next_id_view() == old(self).next_id_view() + 1,
            final(self).surfaces_view().len() == old(self).surfaces_view().len() + 1,
            final(self).surfaces_view().drop_last() == old(self).surfaces_view(),
            ({
                let s = final(self).surfaces_view().last();
                s.id == id && s.role == role && s.parent is None && s.children@.len() == 0 && s.x
                    == 0 && s.y == 0 && s.width == 0 && s.height == 0
            }),
    {
        let id = SurfaceId(self.next_id);
        self.next_id = self.next_id + 1;
        let surface = OblivionSurface::new(id, role);
        self.surfaces.push(surface);
        assert(self.surfaces@.drop_last() =~= old(self).surfaces@);
        id
    }

    /// The surface with id `id`, if any.
    pub fn get_surface(&self, id: SurfaceId) -> (r: Option<&OblivionSurface>)
        ensures
            match r {
                Some(s) => s.id == id && exists|i: int|
                    0 <= i < self.surfaces_view().len() && self.surfaces_view()[i] == *s,
                None => forall|i: int|
                    0 <= i < self.surfaces_view().len() ==> #[trigger] self.surfaces_view()[i].id != id,
            },
    {
        let mut i: usize = 0;
        while i < self.surfaces.len()
            invariant
                i <= self.surfaces@.len(),
                forall|j: int| 0 <= j < i ==> self.surfaces@[j].id != id,
            decreases self.surfaces@.len() - i,
        {
            if self.surfaces[i].id == id {
                return Some(&self.surfaces[i]);
            }
            i += 1;
        }
        None
    }

    /// The toplevel surfaces, in order of creation.
    pub fn get_toplevels(&self) -> (r: Vec<&OblivionSurface>)
        ensures
            derefs(r@) == toplevels_of(self.surfaces_view()),
            forall|i: int| 0 <= i < r@.len() ==> #[trigger] r@[i].role == SurfaceRole::Toplevel,
    {
        let mut r: Vec<&OblivionSurface> = Vec::new();
        let mut i: usize = 0;
        while i < self.surfaces.len()
            invariant
                i <= self.surfaces@.len(),
                derefs(r@) == toplevels_of(self.surfaces@.subrange(0, i as int)),
                forall|j: int| 0 <= j < r@.len() ==> #[trigger] r@[j].role == SurfaceRole::Toplevel,
            decreases self.surfaces@.len() - i,
        {
            let ghost before = r@;
            if self.surfaces[i].role == SurfaceRole::Toplevel {
                r.push(&self.surfaces[i]);
                assert(derefs(r@) =~= derefs(before).push(self.surfaces@[i as int]));
            }
            assert(self.surfaces@.subrange(0, i + 1).drop_last() =~= self.surfaces@.subrange(0, i as int));
            i += 1;
        }
        assert(self.surfaces@.subrange(0, self.surfaces@.len() as int) =~= self.surfaces@);
        r
    }
}

impl Default for SurfaceTree {
    fn default() -> (t: Self)
        ensures
            t.wf(),
            t.surfaces_view().len() == 0,
            t.next_id_view() == 1,
    {
        Self::new()
    }
}

} // verus!
