//! The graphics backend's surface list and output size.
//!
//! Hooking the backend's repaint timer into an event loop is the host's
//! part; this module keeps the surfaces it draws.

use vstd::prelude::*;

verus! {

/// A rectangle the backend draws, under the id it was given.
#[derive(Debug, Clone, Copy, PartialEq, Eq, Structural)]
pub struct Surface {
    pub id: u32,
    pub x: i32,
    pub y: i32,
    pub width: u32,
    pub height: u32,
}

/// The surfaces of `s` whose id is not `id`, in order.
pub open spec fn surfaces_without(s: Seq<Surface>, id: u32) -> Seq<Surface>
    decreases s.len(),
{
    if s.len() == 0 {
        Seq::empty()
    } else if s.last().id == id {
        surfaces_without(s.drop_last(), id)
    } else {
        surfaces_without(s.drop_last(), id).push(s.last())
    }
}

pub struct Backend {
    width: u32,
    height: u32,
    surfaces: Vec<Surface>,
}

impl Backend {
    /// The surfaces, in the order they were added.
    pub closed spec fn surfaces_view(&self) -> Seq<Surface> {
        self.surfaces@
    }

    pub closed spec fn size_view(&self) -> (u32, u32) {
        (self.width, self.height)
    }

    /// A 1920 x 1080 backend without surfaces.
    pub fn new() -> (b: Self)
        ensures
            b.size_view() == (1920u32, 1080u32),
            b.surfaces_view() == Seq::<Surface>::empty(),
    {
        Backend { width: 1920, height: 1080, surfaces: Vec::new() }
    }

    /// Draw every surface; drawing a surface produces nothing yet.
    pub fn render(&self) {
        let mut i: usize = 0;
        while i < self.surfaces.len()
            invariant
                i <= self.surfaces@.len(),
            decreases self.surfaces@.len() - i,
        {
            self.render_surface(&self.surfaces[i]);
            i += 1;
        }
    }

    fn render_surface(&self, surface: &Surface) {
    }

    /// Add a surface; its id is the number of surfaces held before, taken
    /// modulo 2^32.
    pub fn add_surface(&mut self, x: i32, y: i32, width: u32, height: u32) -> (id: u32)
        ensures
            id == old(self).surfaces_view().len() % 0x1_0000_0000,
            final(self).surfaces_view() == old(self).surfaces_view().push(Surface { id, x, y, width, height }),
            final(self).size_view() == old(self).size_view(),
    {
        let n = self.surfaces.len();
        let id = #[verifier::truncate] (n as u32);
        assert(id == n as int % 0x1_0000_0000) by (bit_vector)
            requires
                id == #[verifier::truncate] (n as u32),
        ;
        self.surfaces.push(Surface { id, x, y, width, height });
        id
    }

    /// Remove every surface with id `id`, keeping the others in order.
    pub fn remove_surface(&mut self, id: u32)
        ensures
            final(self).surfaces_view() == surfaces_without(old(self).surfaces_view(), id),
            final(self).size_view() == old(self).size_view(),
    {
        let ghost all = self.surfaces@;
        let mut kept: Vec<Surface> = Vec::new();
        let mut i: usize = 0;
        while i < self.surfaces.len()
            invariant
                all == self.surfaces@,
                i <= all.len(),
                kept@ == surfaces_without(all.subrange(0, i as int), id),
            decreases all.len() - i,
        {
            let s = self.surfaces[i];
            if s.id != id {
                kept.push(s);
            }
            assert(all.subrange(0, i + 1).drop_last() =~= all.subrange(0, i as int));
            i += 1;
        }
        assert(all.subrange(0, all.len() as int) =~= all);
        self.surfaces = kept;
    }

    /// Width and height of the output.
    pub fn dimensions(&self) -> (d: (u32, u32))
        ensures
            d == self.size_view(),
    {
        (self.width, self.height)
    }
}

} // verus!
