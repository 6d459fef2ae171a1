//! Client buffers: created with fresh increasing ids, capped at a fixed
//! number (the oldest is dropped first), marked ready, released and cleaned up.

use vstd::prelude::*;
use std::collections::VecDeque;

verus! {

#[derive(Debug, Clone, Copy, PartialEq, Eq, Hash, Structural)]
pub struct BufferId(pub u64);

impl BufferId {
    pub fn new(id: u64) -> (r: Self)
        ensures
            r.0 == id,
    {
        BufferId(id)
    }

    pub fn as_u64(&self) -> (r: u64)
        ensures
            r == self.0,
    {
        self.0
    }
}

#[derive(Debug, Clone, Copy, PartialEq, Eq, Structural)]
pub struct Buffer {
    pub id: BufferId,
    pub width: u32,
    pub height: u32,
    pub format: u32,
    pub stride: u32,
    pub ready: bool,
}

/// How many buffers the manager keeps at most.
pub const MAX_BUFFERS: usize = 256;

/// The buffers of `s` that are not ready, in order.
pub open spec fn unready(s: Seq<Buffer>) -> Seq<Buffer>
    decreases s.len(),
{
    if s.len() == 0 {
        Seq::empty()
    } else if s.last().ready {
        unready(s.drop_last())
    } else {
        unready(s.drop_last()).push(s.last())
    }
}

/// Some buffer of `s` has id `id`.
pub open spec fn has_id(s: Seq<Buffer>, id: BufferId) -> bool {
    exists|i: int| 0 <= i < s.len() && #[trigger] s[i].id == id
}

pub struct BufferManager {
    buffers: VecDeque<Buffer>,
    next_id: u64,
    max_buffers: usize,
}

impl BufferManager {
    /// The buffers, oldest first.
    pub closed spec fn buffers_view(&self) -> Seq<Buffer> {
        self.buffers@
    }

    pub closed spec fn next_id_view(&self) -> u64 {
        self.next_id
    }

    pub closed spec fn max_view(&self) -> usize {
        self.max_buffers
    }

    /// At most the maximum number of buffers, with strictly increasing ids
    /// below the next id.
    pub open spec fn wf(&self) -> bool {
        &&& self.max_view() == MAX_BUFFERS
        &&& self.buffers_view().len() <= self.max_view()
        &&& forall|i: int, j: int|
            0 <= i < j < self.buffers_view().len() ==> self.buffers_view()[i].id.0
                < self.buffers_view()[j].id.0
        &&& forall|i: int|
            0 <= i < self.buffers_view().len() ==> #[trigger] self.buffers_view()[i].id.0
                < self.next_id_view()
        &&& self.next_id_view() >= 1
    }

    pub fn new() -> (m: Self)
        ensures
            m.wf(),
            m.buffers_view() == Seq::<Buffer>::empty(),
            m.next_id_view() == 1,
    {
        BufferManager { buffers: VecDeque::new(), next_id: 1, max_buffers: MAX_BUFFERS }
    }

    /// Create a buffer, not yet ready, under the next id; when the manager
    /// is full the oldest buffer is dropped first.
    pub fn create_buffer(&mut self, width: u32, height: u32, format: u32, stride: u32) -> (id: BufferId)
        requires
            old(self).wf(),
            old(self).next_id_view() < u64::MAX,
        ensures
            final(self).wf(),
            id.0 == old(self).next_id_view(),
            final(self).next_id_view() == old(self).next_id_view() + 1,
            final(self).buffers_view() == (if old(self).buffers_view().len() >= MAX_BUFFERS {
                old(self).buffers_view().drop_first()
            } else {
                old(self).buffers_view()
            }).push(Buffer { id, width, height, format, stride, ready: false }),
    {
        let id = BufferId(self.next_id);
        self.next_id = self.next_id + 1;
        if self.buffers.len() >= self.max_buffers {
            self.buffers.pop_front();
        }
        let buffer = Buffer { id, width, height, format, stride, ready: false };
        self.buffers.push_back(buffer);
        id
    }

    /// Index of the buffer with id `id`, or the count when there is none.
    fn find(&self, id: BufferId) -> (i: usize)
        requires
            self.wf(),
        ensures
            i <= self.buffers_view().len(),
            i < self.buffers_view().len() ==> self.buffers_view()[i as int].id == id,
            i == self.buffers_view().len() ==> !has_id(self.buffers_view(), id),
    {
        let n = self.buffers.len();
        let mut i: usize = 0;
        while i < n && self.buffers[i].id != id
            invariant
                n == self.buffers@.len(),
                i <= n,
                forall|j: int| 0 <= j < i ==> self.buffers@[j].id != id,
            decreases n - i,
        {
            i += 1;
        }
        i
    }

    /// The buffer with id `id`, if any.
    pub fn get_buffer(&self, id: BufferId) -> (r: Option<&Buffer>)
        requires
            self.wf(),
        ensures
            match r {
                Some(b) => b.id == id && exists|i: int|
                    0 <= i < self.buffers_view().len() && self.buffers_view()[i] == *b,
                None => !has_id(self.buffers_view(), id),
            },
    {
        let i = self.find(id);
        if i < self.buffers.len() {
            Some(&self.buffers[i])
        } else {
            None
        }
    }

    /// Mark the buffer with id `id`, if any, ready.
    pub fn mark_ready(&mut self, id: BufferId)
        requires
            old(self).wf(),
        ensures
            final(self).wf(),
            final(self).next_id_view() == old(self).next_id_view(),
            !has_id(old(self).buffers_view(), id) ==> final(self).buffers_view()
                == old(self).buffers_view(),
            forall|i: int|
                0 <= i < old(self).buffers_view().len() && #[trigger] old(self).buffers_view()[i].id
                    == id ==> final(self).buffers_view() == old(self).buffers_view().update(
                    i,
                    Buffer { ready: true, ..old(self).buffers_view()[i] },
                ),
    {
        let i = self.find(id);
        if i < self.buffers.len() {
            let mut b = self.buffers.remove(i).unwrap();
            b.ready = true;
            self.buffers.insert(i, b);
            assert(self.buffers@ =~= old(self).buffers@.update(i as int, b));
        }
    }

    /// Drop the buffer with id `id`, if any.
    pub fn release_buffer(&mut self, id: BufferId)
        requires
            old(self).wf(),
        ensures
            final(self).wf(),
            final(self).next_id_view() == old(self).next_id_view(),
            !has_id(final(self).buffers_view(), id),
            !has_id(old(self).buffers_view(), id) ==> final(self).buffers_view()
                == old(self).buffers_view(),
            forall|i: int|
                0 <= i < old(self).buffers_view().len() && #[trigger] old(self).buffers_view()[i].id
                    == id ==> final(self).buffers_view() == old(self).buffers_view().remove(i),
    {
        let i = self.find(id);
        if i < self.buffers.len() {
            self.buffers.remove(i);
            proof {
                assert forall|j: int| 0 <= j < self.buffers@.len() implies self.buffers@[j].id != id by {
                    if j < i {
                        assert(old(self).buffers@[j].id.0 < old(self).buffers@[i as int].id.0);
                    } else {
                        assert(old(self).buffers@[i as int].id.0 < old(self).buffers@[j + 1].id.0);
                    }
                }
            }
        }
    }

    /// Drop every ready buffer, keeping the others in order.
    pub fn cleanup(&mut self)
        requires
            old(self).wf(),
        ensures
            final(self).wf(),
            final(self).next_id_view() == old(self).next_id_view(),
            final(self).buffers_view() == unready(old(self).buffers_view()),
            forall|i: int| 0 <= i < final(self).buffers_view().len() ==> !#[trigger] final(self).buffers_view()[i].ready,
    {
        let ghost all = self.buffers@;
        let n = self.buffers.len();
        let mut kept: VecDeque<Buffer> = VecDeque::new();
        let mut i: usize = 0;
        while i < n
            invariant
                n == all.len(),
                i <= n,
                self.buffers@ == all.subrange(i as int, n as int),
                kept@ == unready(all.subrange(0, i as int)),
                self.next_id == old(self).next_id,
                self.max_buffers == old(self).max_buffers,
                all == old(self).buffers@,
            decreases n - i,
        {
            let b = self.buffers.pop_front().unwrap();
            assert(b == all[i as int]);
            if !b.ready {
                kept.push_back(b);
            }
            proof {
                assert(all.subrange(0, i + 1).drop_last() =~= all.subrange(0, i as int));
                assert(self.buffers@ =~= all.subrange(i + 1, n as int));
            }
            i += 1;
        }
        assert(all.subrange(0, n as int) =~= all);
        self.buffers = kept;
        proof {
            lemma_unready_props(all);
            lemma_unready_sorted(all);
            assert forall|i: int| 0 <= i < self.buffers@.len() implies #[trigger] self.buffers@[i].id.0
                < self.next_id by {
                assert(all.contains(unready(all)[i]));
                let k = choose|k: int| 0 <= k < all.len() && all[k] == self.buffers@[i];
                assert(old(self).buffers_view()[k].id.0 < old(self).next_id_view());
            }
        }
    }
}

proof fn lemma_unready_props(s: Seq<Buffer>)
    ensures
        unready(s).len() <= s.len(),
        forall|i: int| 0 <= i < unready(s).len() ==> !#[trigger] unready(s)[i].ready,
        forall|i: int| 0 <= i < unready(s).len() ==> #[trigger] s.contains(unready(s)[i]),
    decreases s.len(),
{
    if s.len() > 0 {
        lemma_unready_props(s.drop_last());
        let u = unready(s.drop_last());
        assert forall|i: int| 0 <= i < unready(s).len() implies #[trigger] s.contains(unready(s)[i]) by {
            if i < u.len() {
                assert(s.drop_last().contains(u[i]));
                let k = choose|k: int| 0 <= k < s.drop_last().len() && s.drop_last()[k] == u[i];
                assert(s[k] == u[i]);
            } else {
                assert(s[s.len() - 1] == unready(s)[i]);
            }
        }
    }
}

proof fn lemma_unready_sorted(s: Seq<Buffer>)
    requires
        forall|i: int, j: int| 0 <= i < j < s.len() ==> s[i].id.0 < s[j].id.0,
    ensures
        forall|a: int, b: int|
            0 <= a < b < unready(s).len() ==> unready(s)[a].id.0 < unready(s)[b].id.0,
    decreases s.len(),
{
    if s.len() > 0 {
        lemma_unready_sorted(s.drop_last());
        lemma_unready_props(s.drop_last());
        let u = unready(s.drop_last());
        if !s.last().ready {
            assert forall|a: int, b: int| 0 <= a < b < unready(s).len() implies unready(s)[a].id.0
                < unready(s)[b].id.0 by {
                if b == u.len() {
                    assert(s.drop_last().contains(u[a]));
                    let k = choose|k: int| 0 <= k < s.drop_last().len() && s.drop_last()[k] == u[a];
                    assert(s[k] == u[a]);
                }
            }
        }
    }
}

impl Default for BufferManager {
    fn default() -> (m: Self)
        ensures
            m.wf(),
            m.buffers_view() == Seq::<Buffer>::empty(),
            m.next_id_view() == 1,
    {
        Self::new()
    }
}

} // verus!
