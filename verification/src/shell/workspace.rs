//! Workspaces: named sets of windows, one of them active; a window lives
//! in at most one workspace when moved with `move_window_to`.

use vstd::prelude::*;
use vstd::string::*;
use std::collections::HashMap;
use crate::maps::keys_of;
use crate::text::{same_text, views};

verus! {

broadcast use vstd::std_specs::hash::group_hash_axioms;

#[derive(Debug, Clone, Copy, PartialEq, Eq, Hash, Structural)]
pub struct WorkspaceId(pub u32);

impl WorkspaceId {
    pub fn new(id: u32) -> (r: Self)
        ensures
            r.0 == id,
    {
        WorkspaceId(id)
    }

    pub fn as_u32(&self) -> (r: u32)
        ensures
            r == self.0,
    {
        self.0
    }
}

#[derive(Debug, Clone)]
pub struct Workspace {
    pub id: WorkspaceId,
    pub name: String,
    pub windows: Vec<String>,
    pub active: bool,
}

/// The window names of a workspace.
pub open spec fn names(w: Workspace) -> Seq<Seq<char>> {
    views(w.windows@)
}

/// `s` without the elements equal to `x`, in order.
pub open spec fn without(s: Seq<Seq<char>>, x: Seq<char>) -> Seq<Seq<char>>
    decreases s.len(),
{
    if s.len() == 0 {
        Seq::empty()
    } else if s.last() == x {
        without(s.drop_last(), x)
    } else {
        without(s.drop_last(), x).push(s.last())
    }
}

pub proof fn lemma_without(s: Seq<Seq<char>>, x: Seq<char>)
    ensures
        !without(s, x).contains(x),
        forall|y: Seq<char>|
            #![trigger without(s, x).contains(y)]
            #![trigger s.contains(y)]
            y != x ==> (without(s, x).contains(y) <==> s.contains(y)),
        s.no_duplicates() ==> without(s, x).no_duplicates(),
        !s.contains(x) ==> without(s, x) == s,
    decreases s.len(),
{
    if s.len() > 0 {
        lemma_without(s.drop_last(), x);
        let w = without(s.drop_last(), x);
        assert forall|y: Seq<char>| y != x implies (without(s, x).contains(y) <==> s.contains(y)) by {
            if s.contains(y) {
                let i = choose|i: int| 0 <= i < s.len() && s[i] == y;
                if i < s.len() - 1 {
                    assert(s.drop_last()[i] == y);
                    assert(s.drop_last().contains(y));
                    assert(w.contains(y));
                    let j = choose|j: int| 0 <= j < w.len() && w[j] == y;
                    if s.last() == x {
                        assert(without(s, x) == w);
                    } else {
                        assert(without(s, x) == w.push(s.last()));
                        assert(without(s, x)[j] == y);
                    }
                } else {
                    assert(without(s, x)[w.len() as int] == y);
                }
            }
            if without(s, x).contains(y) {
                let i = choose|i: int| 0 <= i < without(s, x).len() && without(s, x)[i] == y;
                if i < w.len() {
                    assert(w[i] == y);
                    assert(w.contains(y));
                    let j = choose|j: int| 0 <= j < s.drop_last().len() && s.drop_last()[j] == y;
                    assert(s[j] == y);
                } else {
                    assert(s[s.len() - 1] == y);
                }
            }
        }
        if s.no_duplicates() {
            assert(s.drop_last().no_duplicates()) by {
                assert forall|a: int, b: int| 0 <= a < b < s.drop_last().len() implies s.drop_last()[a]
                    != s.drop_last()[b] by {
                    assert(s[a] != s[b]);
                }
            }
            if s.last() != x {
                assert(!w.contains(s.last())) by {
                    if w.contains(s.last()) {
                        let j = choose|j: int| 0 <= j < s.drop_last().len() && s.drop_last()[j] == s.last();
                        assert(s[j] == s[s.len() - 1]);
                    }
                }
                assert forall|a: int, b: int| 0 <= a < b < without(s, x).len() implies without(s, x)[a]
                    != without(s, x)[b] by {
                    if b == w.len() {
                        assert(w[a] != s.last()) by {
                            if w[a] == s.last() {
                                assert(w.contains(s.last()));
                            }
                        }
                    }
                }
            }
        }
        if !s.contains(x) {
            assert(s.last() != x);
            assert(!s.drop_last().contains(x)) by {
                if s.drop_last().contains(x) {
                    let j = choose|j: int| 0 <= j < s.drop_last().len() && s.drop_last()[j] == x;
                    assert(s[j] == x);
                }
            }
            assert(s.drop_last().push(s.last()) =~= s);
        }
    }
}

impl Workspace {
    pub fn new(id: WorkspaceId, name: String) -> (w: Self)
        ensures
            w.id == id,
            w.name@ == name@,
            w.windows@.len() == 0,
            !w.active,
    {
        Workspace { id, name, windows: Vec::new(), active: false }
    }

    fn holds(&self, window_id: &str) -> (r: bool)
        ensures
            r == names(*self).contains(window_id@),
    {
        let mut i: usize = 0;
        while i < self.windows.len()
            invariant
                i <= self.windows@.len(),
                forall|j: int| 0 <= j < i ==> names(*self)[j] != window_id@,
            decreases self.windows@.len() - i,
        {
            if same_text(self.windows[i].as_str(), window_id) {
                assert(names(*self)[i as int] == window_id@);
                return true;
            }
            i += 1;
        }
        false
    }

    /// Add a window, unless the workspace holds it already.
    pub fn add_window(&mut self, window_id: String)
        ensures
            final(self).id == old(self).id,
            final(self).name == old(self).name,
            final(self).active == old(self).active,
            names(*final(self)) == if names(*old(self)).contains(window_id@) {
                names(*old(self))
            } else {
                names(*old(self)).push(window_id@)
            },
    {
        if !self.holds(window_id.as_str()) {
            let ghost before = self.windows@;
            self.windows.push(window_id);
            assert(views(self.windows@) =~= views(before).push(window_id@));
        }
    }

    /// Remove every occurrence of a window.
    pub fn remove_window(&mut self, window_id: &str)
        ensures
            final(self).id == old(self).id,
            final(self).name == old(self).name,
            final(self).active == old(self).active,
            names(*final(self)) == without(names(*old(self)), window_id@),
    {
        let ghost all = self.windows@;
        let mut kept: Vec<String> = Vec::new();
        let mut rest: Vec<String> = Vec::new();
        std::mem::swap(&mut rest, &mut self.windows);
        let n = rest.len();
        let mut i: usize = 0;
        while i < n
            invariant
                n == all.len(),
                i <= n,
                rest@ == all.subrange(i as int, n as int),
                views(kept@) == without(views(all.subrange(0, i as int)), window_id@),
            decreases n - i,
        {
            let w = rest.remove(0);
            assert(w == all[i as int]);
            let ghost before = kept@;
            if !same_text(w.as_str(), window_id) {
                kept.push(w);
                assert(views(kept@) =~= views(before).push(all[i as int]@));
            }
            proof {
                assert(views(all.subrange(0, i + 1)).drop_last() =~= views(all.subrange(0, i as int)));
                assert(rest@ =~= all.subrange(i + 1, n as int));
            }
            i += 1;
        }
        assert(all.subrange(0, n as int) =~= all);
        self.windows = kept;
    }

    pub fn set_active(&mut self, active: bool)
        ensures
            final(self).active == active,
            final(self).id == old(self).id,
            final(self).name == old(self).name,
            final(self).windows == old(self).windows,
    {
        self.active = active;
    }
}

/// No workspace holds a window twice.
pub open spec fn duplicate_free(m: Map<u32, Workspace>) -> bool {
    forall|k: u32| #[trigger] m.contains_key(k) ==> names(m[k]).no_duplicates()
}

pub struct WorkspaceManager {
    pub workspaces: HashMap<u32, Workspace>,
    pub active_workspace: WorkspaceId,
    pub next_id: u32,
}

impl WorkspaceManager {
    /// One workspace, "Main", with id 1, without windows and with its own
    /// active flag down, under key 1, which is the active id; the next id
    /// is 2.
    pub open spec fn is_initial(&self) -> bool {
        &&& self.workspaces@.dom() == set![1u32]
        &&& self.workspaces@[1].id == WorkspaceId(1)
        &&& self.workspaces@[1].name@ == "Main"@
        &&& self.workspaces@[1].windows@.len() == 0
        &&& !self.workspaces@[1].active
        &&& self.active_workspace == WorkspaceId(1)
        &&& self.next_id == 2
    }

    /// A manager with one workspace, "Main", under id 1, which is the active id.
    pub fn new() -> (m: Self)
        ensures
            m.is_initial(),
    {
        let mut m = WorkspaceManager { workspaces: HashMap::new(), active_workspace: WorkspaceId(1), next_id: 1 };
        m.add_workspace(String::from_str("Main"));
        assert(m.workspaces@.dom() =~= set![1u32]);
        m
    }

    /// Add a workspace under the next id.
    pub fn add_workspace(&mut self, name: String) -> (id: WorkspaceId)
        requires
            old(self).next_id < u32::MAX,
        ensures
            id.0 == old(self).next_id,
            final(self).next_id == old(self).next_id + 1,
            final(self).active_workspace == old(self).active_workspace,
            final(self).workspaces@.dom() == old(self).workspaces@.dom().insert(id.0),
            forall|k: u32| #[trigger] old(self).workspaces@.contains_key(k) && k != id.0 ==> final(self).workspaces@[k] == old(self).workspaces@[k],
            final(self).workspaces@[id.0].id == id,
            final(self).workspaces@[id.0].name@ == name@,
            final(self).workspaces@[id.0].windows@.len() == 0,
            !final(self).workspaces@[id.0].active,
    {
        let id = WorkspaceId(self.next_id);
        self.next_id = self.next_id + 1;
        let workspace = Workspace::new(id, name);
        self.workspaces.insert(id.0, workspace);
        id
    }

    /// Remove a workspace, but never the last one; when the active one is
    /// removed, id 1 becomes the active id.
    pub fn remove_workspace(&mut self, id: WorkspaceId)
        ensures
            final(self).next_id == old(self).next_id,
            old(self).workspaces@.len() > 1 ==> final(self).workspaces@ == old(self).workspaces@.remove(id.0)
                && final(self).active_workspace == if old(self).active_workspace == id {
                WorkspaceId(1)
            } else {
                old(self).active_workspace
            },
            old(self).workspaces@.len() <= 1 ==> final(self).workspaces@ == old(self).workspaces@
                && final(self).active_workspace == old(self).active_workspace,
    {
        if self.workspaces.len() > 1 {
            self.workspaces.remove(&id.0);
            if self.active_workspace == id {
                self.active_workspace = WorkspaceId(1);
            }
        }
    }

    pub fn get_workspace(&self, id: WorkspaceId) -> (r: Option<&Workspace>)
        ensures
            match r {
                Some(w) => self.workspaces@.contains_key(id.0) && *w == self.workspaces@[id.0],
                None => !self.workspaces@.contains_key(id.0),
            },
    {
        self.workspaces.get(&id.0)
    }

    pub fn get_active_workspace(&self) -> (r: Option<&Workspace>)
        ensures
            match r {
                Some(w) => self.workspaces@.contains_key(self.active_workspace.0)
                    && *w == self.workspaces@[self.active_workspace.0],
                None => !self.workspaces@.contains_key(self.active_workspace.0),
            },
    {
        self.workspaces.get(&self.active_workspace.0)
    }

    /// Make `id` the active workspace: the old one is marked inactive, the
    /// new one, if it exists, active.
    pub fn switch_to(&mut self, id: WorkspaceId)
        ensures
            final(self).active_workspace == id,
            final(self).next_id == old(self).next_id,
            final(self).workspaces@.dom() == old(self).workspaces@.dom(),
            forall|k: u32| #[trigger] final(self).workspaces@.contains_key(k) ==> {
                let w0 = old(self).workspaces@[k];
                let w1 = final(self).workspaces@[k];
                &&& w1.id == w0.id
                &&& w1.name == w0.name
                &&& w1.windows == w0.windows
                &&& w1.active == if k == id.0 {
                    true
                } else if k == old(self).active_workspace.0 {
                    false
                } else {
                    w0.active
                }
            },
    {
        let old_active = self.active_workspace.0;
        if let Some(mut w) = self.workspaces.remove(&old_active) {
            w.set_active(false);
            self.workspaces.insert(old_active, w);
        }
        assert(self.workspaces@.dom() =~= old(self).workspaces@.dom());
        self.active_workspace = id;
        if let Some(mut w) = self.workspaces.remove(&id.0) {
            w.set_active(true);
            self.workspaces.insert(id.0, w);
        }
        assert(self.workspaces@.dom() =~= old(self).workspaces@.dom());
    }

    /// Move a window to workspace `workspace_id`: it leaves every workspace,
    /// then joins the target if that exists.
    pub fn move_window_to(&mut self, window_id: &str, workspace_id: WorkspaceId)
        ensures
            final(self).active_workspace == old(self).active_workspace,
            final(self).next_id == old(self).next_id,
            final(self).workspaces@.dom() == old(self).workspaces@.dom(),
            forall|k: u32| #[trigger] final(self).workspaces@.contains_key(k) ==> {
                let w0 = old(self).workspaces@[k];
                let w1 = final(self).workspaces@[k];
                &&& w1.id == w0.id
                &&& w1.name == w0.name
                &&& w1.active == w0.active
                &&& names(w1) == if k == workspace_id.0 {
                    without(names(w0), window_id@).push(window_id@)
                } else {
                    without(names(w0), window_id@)
                }
            },
    {
        let keys = keys_of(&self.workspaces);
        let ghost m0 = self.workspaces@;
        let mut idx: usize = 0;
        while idx < keys.len()
            invariant
                keys@.to_set() == m0.dom(),
                keys@.no_duplicates(),
                idx <= keys@.len(),
                self.workspaces@.dom() == m0.dom(),
                self.active_workspace == old(self).active_workspace,
                self.next_id == old(self).next_id,
                m0 == old(self).workspaces@,
                forall|k: u32| #[trigger] self.workspaces@.contains_key(k) ==> {
                    let w0 = m0[k];
                    let w1 = self.workspaces@[k];
                    &&& w1.id == w0.id
                    &&& w1.name == w0.name
                    &&& w1.active == w0.active
                    &&& names(w1) == if keys@.subrange(0, idx as int).contains(k) {
                        without(names(w0), window_id@)
                    } else {
                        names(w0)
                    }
                },
            decreases keys@.len() - idx,
        {
            let k = keys[idx];
            assert(keys@.to_set().contains(k));
            let mut w = self.workspaces.remove(&k).unwrap();
            w.remove_window(window_id);
            self.workspaces.insert(k, w);
            proof {
                assert forall|j: u32| keys@.subrange(0, idx + 1).contains(j) <==> (keys@.subrange(0, idx as int).contains(j) || j == k) by {
                    if keys@.subrange(0, idx + 1).contains(j) {
                        let a = choose|a: int| 0 <= a < idx + 1 && #[trigger] keys@.subrange(0, idx + 1)[a] == j;
                        if a < idx {
                            assert(keys@.subrange(0, idx as int)[a] == j);
                        }
                    }
                    if keys@.subrange(0, idx as int).contains(j) {
                        let a = choose|a: int| 0 <= a < idx && #[trigger] keys@.subrange(0, idx as int)[a] == j;
                        assert(keys@.subrange(0, idx + 1)[a] == j);
                    }
                    if j == k {
                        assert(keys@.subrange(0, idx + 1)[idx as int] == k);
                    }
                }
                assert(!keys@.subrange(0, idx as int).contains(k)) by {
                    if keys@.subrange(0, idx as int).contains(k) {
                        let a = choose|a: int| 0 <= a < idx && #[trigger] keys@.subrange(0, idx as int)[a] == k;
                        assert(keys@[a] == keys@[idx as int]);
                    }
                }
                assert(self.workspaces@.dom() =~= m0.dom());
            }
            idx += 1;
        }
        proof {
            assert forall|k: u32| m0.contains_key(k) implies keys@.subrange(0, keys@.len() as int).contains(k) by {
                assert(keys@.to_set().contains(k));
                assert(keys@.subrange(0, keys@.len() as int) =~= keys@);
            }
        }
        let ghost m1 = self.workspaces@;
        assert forall|k: u32| #[trigger] m1.contains_key(k) implies names(m1[k]) == without(names(m0[k]), window_id@) by {
            assert(keys@.subrange(0, idx as int).contains(k));
        }
        if let Some(mut w) = self.workspaces.remove(&workspace_id.0) {
            proof {
                lemma_without(names(m0[workspace_id.0]), window_id@);
                assert(names(w) == without(names(m0[workspace_id.0]), window_id@));
            }
            w.add_window(String::from_str(window_id));
            self.workspaces.insert(workspace_id.0, w);
        }
        assert(self.workspaces@.dom() =~= m0.dom());
    }

    pub fn workspace_count(&self) -> (n: usize)
        ensures
            n == self.workspaces@.len(),
    {
        self.workspaces.len()
    }
}

/// After a window is moved to an existing workspace it is held there
/// exactly once and by no other workspace; after a move to a missing
/// workspace no workspace holds it. Workspaces that held no window twice
/// still hold none twice.
pub proof fn lemma_move_window_exclusive(
    before: Map<u32, Workspace>,
    after: Map<u32, Workspace>,
    window: Seq<char>,
    target: u32,
)
    requires
        after.dom() == before.dom(),
        forall|k: u32| #[trigger] after.contains_key(k) ==> names(after[k]) == if k == target {
            without(names(before[k]), window).push(window)
        } else {
            without(names(before[k]), window)
        },
    ensures
        forall|k: u32| #[trigger] after.contains_key(k) && k != target ==> !names(after[k]).contains(window),
        after.contains_key(target) ==> names(after[target]).contains(window)
            && names(after[target]).filter(|x: Seq<char>| x == window).len() == 1,
        duplicate_free(before) ==> duplicate_free(after),
{
    assert forall|k: u32| #[trigger] after.contains_key(k) && k != target implies !names(after[k]).contains(window) by {
        lemma_without(names(before[k]), window);
    }
    if after.contains_key(target) {
        let w = without(names(before[target]), window);
        lemma_without(names(before[target]), window);
        let s = w.push(window);
        assert(s[w.len() as int] == window);
        reveal_with_fuel(Seq::filter, 2);
        assert(s.drop_last() =~= w);
        lemma_filter_absent(w, window);
    }
    if duplicate_free(before) {
        assert forall|k: u32| #[trigger] after.contains_key(k) implies names(after[k]).no_duplicates() by {
            lemma_without(names(before[k]), window);
            if k == target {
                let w = without(names(before[k]), window);
                assert forall|a: int, b: int| 0 <= a < b < w.push(window).len() implies w.push(window)[a]
                    != w.push(window)[b] by {
                    if b == w.len() {
                        assert(w[a] != window) by {
                            if w[a] == window {
                                assert(w.contains(window));
                            }
                        }
                    }
                }
            }
        }
    }
}

proof fn lemma_filter_absent(w: Seq<Seq<char>>, x: Seq<char>)
    requires
        !w.contains(x),
    ensures
        w.filter(|y: Seq<char>| y == x).len() == 0,
    decreases w.len(),
{
    reveal_with_fuel(Seq::filter, 1);
    if w.len() > 0 {
        assert(!w.drop_last().contains(x)) by {
            if w.drop_last().contains(x) {
                let j = choose|j: int| 0 <= j < w.drop_last().len() && w.drop_last()[j] == x;
                assert(w[j] == x);
            }
        }
        lemma_filter_absent(w.drop_last(), x);
        assert(w.last() != x);
    }
}

impl Default for WorkspaceManager {
    fn default() -> (m: Self)
        ensures
            m.is_initial(),
    {
        Self::new()
    }
}

} // verus!
