//! The application launcher: the registered applications, which of them
//! run under which process id, and how often each was launched.
//!
//! Starting the process itself is the host's part: it asks `get_app` for
//! the command, spawns it, and reports the new process id to `launch`.

use vstd::prelude::*;
use vstd::string::*;
use crate::keyed::{as_map, distinct_keys, lookup, store, discard};

verus! {

#[derive(Debug, Clone)]
pub struct AppEntry {
    pub id: String,
    pub name: String,
    pub command: String,
    pub icon: Option<std::path::PathBuf>,
}

impl AppEntry {
    /// An entry without icon.
    pub fn new(id: String, name: String, command: String) -> (a: Self)
        ensures
            a.id@ == id@,
            a.name@ == name@,
            a.command@ == command@,
            a.icon is None,
    {
        AppEntry { id, name, command, icon: None }
    }
}

#[derive(Debug, Clone, Copy, PartialEq, Eq, Structural)]
pub enum LaunchMode {
    Normal,
    Floating,
    Fullscreen,
}

impl Default for LaunchMode {
    fn default() -> (m: Self)
        ensures
            m == LaunchMode::Normal,
    {
        LaunchMode::Normal
    }
}

#[derive(Debug, Clone, Copy, PartialEq, Eq, Structural)]
pub struct LaunchConfig {
    pub mode: LaunchMode,
    pub sandbox: bool,
    pub focus_on_launch: bool,
}

impl LaunchConfig {
    pub open spec fn default_spec() -> LaunchConfig {
        LaunchConfig { mode: LaunchMode::Normal, sandbox: false, focus_on_launch: true }
    }
}

impl Default for LaunchConfig {
    /// Normal windows, no sandbox, focus on launch.
    fn default() -> (c: Self)
        ensures
            c == LaunchConfig::default_spec(),
    {
        LaunchConfig { mode: LaunchMode::Normal, sandbox: false, focus_on_launch: true }
    }
}

/// Why a launch was refused.
#[derive(Debug, Clone)]
pub enum LaunchError {
    /// No application is registered under this id.
    NotFound(String),
}

impl LaunchError {
    /// The text shown for the error.
    pub fn message(&self) -> (s: String)
        ensures
            match self {
                LaunchError::NotFound(id) => s@ == "App not found: "@ + id@,
            },
    {
        match self {
            LaunchError::NotFound(id) => {
                let mut s = String::from_str("App not found: ");
                s.append(id.as_str());
                s
            },
        }
    }
}

/// One call on a launcher, as far as registration and running go.
pub enum LauncherOp {
    /// `register_app` of an application with this id.
    Register(Seq<char>),
    /// `unregister_app` of this id.
    Unregister(Seq<char>),
    /// `launch` of this id as this process.
    Launch(Seq<char>, u32),
}

/// The registered ids and the running table after `op`: a launch of a
/// registered id records its process, anything else leaves the table.
pub open spec fn after_op(s: (Set<Seq<char>>, Map<Seq<char>, u32>), op: LauncherOp) -> (
    Set<Seq<char>>,
    Map<Seq<char>, u32>,
) {
    match op {
        LauncherOp::Register(id) => (s.0.insert(id), s.1),
        LauncherOp::Unregister(id) => (s.0.remove(id), s.1),
        LauncherOp::Launch(id, pid) => if s.0.contains(id) {
            (s.0, s.1.insert(id, pid))
        } else {
            s
        },
    }
}

/// The registered ids and the running table of a new launcher after the
/// calls `ops`, in order.
pub open spec fn after_ops(ops: Seq<LauncherOp>) -> (Set<Seq<char>>, Map<Seq<char>, u32>)
    decreases ops.len(),
{
    if ops.len() == 0 {
        (Set::empty(), Map::empty())
    } else {
        after_op(after_ops(ops.drop_last()), ops.last())
    }
}

/// Call `i` of `ops` is a launch of `id` that succeeded: `id` was
/// registered at that moment.
pub open spec fn launched_at(ops: Seq<LauncherOp>, i: int, id: Seq<char>) -> bool {
    &&& 0 <= i < ops.len()
    &&& ops[i] matches LauncherOp::Launch(k, _) && k == id
    &&& after_ops(ops.take(i)).0.contains(id)
}

/// After any calls on a new launcher, an id counts as running exactly when
/// one of its launches succeeded; unregistering it later does not change
/// that.
pub proof fn lemma_running_iff_launched(ops: Seq<LauncherOp>, id: Seq<char>)
    ensures
        after_ops(ops).1.contains_key(id) <==> exists|i: int| launched_at(ops, i, id),
    decreases ops.len(),
{
    if ops.len() > 0 {
        let n = ops.len() - 1;
        let d = ops.drop_last();
        lemma_running_iff_launched(d, id);
        assert(ops.take(n) =~= d);
        assert forall|i: int| 0 <= i < n implies launched_at(ops, i, id) == launched_at(d, i, id) by {
            assert(ops.take(i) =~= d.take(i));
        }
        let prev = after_ops(d);
        let fresh = ops.last() matches LauncherOp::Launch(k, _) && k == id && prev.0.contains(id);
        if fresh {
            assert(launched_at(ops, n, id));
        } else {
            assert(after_ops(ops).1.contains_key(id) == prev.1.contains_key(id));
            if exists|i: int| launched_at(d, i, id) {
                let i = choose|i: int| launched_at(d, i, id);
                assert(launched_at(ops, i, id));
            }
            if exists|i: int| launched_at(ops, i, id) {
                let i = choose|i: int| launched_at(ops, i, id);
                assert(i != n);
                assert(launched_at(d, i, id));
            }
        }
    }
}

/// Once an id counts as running it stays so, whatever calls follow.
pub proof fn lemma_running_stays(ops: Seq<LauncherOp>, more: Seq<LauncherOp>, id: Seq<char>)
    requires
        after_ops(ops).1.contains_key(id),
    ensures
        after_ops(ops + more).1.contains_key(id),
{
    lemma_running_iff_launched(ops, id);
    let i = choose|i: int| launched_at(ops, i, id);
    assert((ops + more).take(i) =~= ops.take(i));
    assert(launched_at(ops + more, i, id));
    lemma_running_iff_launched(ops + more, id);
}

pub struct AppLauncher {
    pub apps: Vec<(String, AppEntry)>,
    pub running_apps: Vec<(String, u32)>,
    pub launch_counts: Vec<(String, u32)>,
    pub config: LaunchConfig,
}

impl AppLauncher {
    /// The registered applications by id.
    pub open spec fn apps_view(&self) -> Map<Seq<char>, AppEntry> {
        as_map(self.apps@)
    }

    /// The process id of each running application.
    pub open spec fn running_view(&self) -> Map<Seq<char>, u32> {
        as_map(self.running_apps@)
    }

    /// How often each application was launched.
    pub open spec fn counts_view(&self) -> Map<Seq<char>, u32> {
        as_map(self.launch_counts@)
    }

    /// The registered ids and the running table.
    pub open spec fn summary(&self) -> (Set<Seq<char>>, Map<Seq<char>, u32>) {
        (self.apps_view().dom(), self.running_view())
    }

    /// The launch count of `id`, zero when it was never launched.
    pub open spec fn count_of(&self, id: Seq<char>) -> int {
        if self.counts_view().contains_key(id) {
            self.counts_view()[id] as int
        } else {
            0
        }
    }

    /// Each table has distinct keys and each application is filed under
    /// its own id.
    pub open spec fn wf(&self) -> bool {
        &&& distinct_keys(self.apps@)
        &&& distinct_keys(self.running_apps@)
        &&& distinct_keys(self.launch_counts@)
        &&& forall|k: Seq<char>| #[trigger] self.apps_view().contains_key(k) ==> self.apps_view()[k].id@ == k
    }

    /// No applications, nothing running, nothing launched, default
    /// configuration.
    pub open spec fn is_initial(&self) -> bool {
        &&& self.wf()
        &&& self.apps_view() == Map::<Seq<char>, AppEntry>::empty()
        &&& self.running_view() == Map::<Seq<char>, u32>::empty()
        &&& self.counts_view() == Map::<Seq<char>, u32>::empty()
        &&& self.config == LaunchConfig::default_spec()
        &&& self.summary() == after_ops(Seq::empty())
    }

    pub fn new() -> (l: Self)
        ensures
            l.is_initial(),
    {
        let l = AppLauncher { apps: Vec::new(), running_apps: Vec::new(), launch_counts: Vec::new(), config: LaunchConfig::default() };
        assert(l.apps_view() =~= Map::empty());
        assert(l.running_view() =~= Map::empty());
        assert(l.counts_view() =~= Map::empty());
        l
    }

    /// File `app` under its id, replacing an application with the same id.
    pub fn register_app(&mut self, app: AppEntry)
        requires
            old(self).wf(),
        ensures
            final(self).wf(),
            final(self).apps_view() == old(self).apps_view().insert(app.id@, app),
            final(self).summary() == after_op(old(self).summary(), LauncherOp::Register(app.id@)),
            final(self).running_view() == old(self).running_view(),
            final(self).counts_view() == old(self).counts_view(),
            final(self).config == old(self).config,
    {
        let key = app.id.clone();
        store(&mut self.apps, key, app);
    }

    /// Forget the application `id`; whether it runs is left as it was.
    pub fn unregister_app(&mut self, id: &str)
        requires
            old(self).wf(),
        ensures
            final(self).wf(),
            final(self).apps_view() == old(self).apps_view().remove(id@),
            final(self).summary() == after_op(old(self).summary(), LauncherOp::Unregister(id@)),
            final(self).running_view() == old(self).running_view(),
            final(self).counts_view() == old(self).counts_view(),
            final(self).config == old(self).config,
    {
        discard(&mut self.apps, id);
    }

    /// The application filed under `id`, if any.
    pub fn get_app(&self, id: &str) -> (r: Option<&AppEntry>)
        requires
            self.wf(),
        ensures
            match r {
                Some(a) => self.apps_view().contains_key(id@) && *a == self.apps_view()[id@],
                None => !self.apps_view().contains_key(id@),
            },
    {
        lookup(&self.apps, id)
    }

    /// How often `id` was launched.
    pub fn launch_count(&self, id: &str) -> (n: u32)
        requires
            self.wf(),
        ensures
            n == self.count_of(id@),
    {
        match lookup(&self.launch_counts, id) {
            Some(n) => *n,
            None => 0,
        }
    }

    /// Record that the application `id` was started as process `pid`: it
    /// runs under `pid` from now on and its launch count goes up by one.
    /// An id that is not registered is refused and nothing changes.
    pub fn launch(&mut self, id: &str, pid: u32) -> (r: Result<u32, LaunchError>)
        requires
            old(self).wf(),
            old(self).count_of(id@) < u32::MAX,
        ensures
            final(self).wf(),
            final(self).apps_view() == old(self).apps_view(),
            final(self).config == old(self).config,
            final(self).summary() == after_op(old(self).summary(), LauncherOp::Launch(id@, pid)),
            old(self).apps_view().contains_key(id@) ==> {
                &&& r == Ok::<u32, LaunchError>(pid)
                &&& final(self).running_view() == old(self).running_view().insert(id@, pid)
                &&& final(self).counts_view() == old(self).counts_view().insert(
                    id@,
                    (old(self).count_of(id@) + 1) as u32,
                )
            },
            !old(self).apps_view().contains_key(id@) ==> {
                &&& r matches Err(LaunchError::NotFound(m)) && m@ == id@
                &&& final(self).running_view() == old(self).running_view()
                &&& final(self).counts_view() == old(self).counts_view()
            },
    {
        if lookup(&self.apps, id).is_none() {
            return Err(LaunchError::NotFound(String::from_str(id)));
        }
        store(&mut self.running_apps, String::from_str(id), pid);
        let n = self.launch_count(id);
        store(&mut self.launch_counts, String::from_str(id), n + 1);
        Ok(pid)
    }

    /// Whether `id` was launched and is recorded as running.
    pub fn is_running(&self, id: &str) -> (b: bool)
        requires
            self.wf(),
        ensures
            b == self.running_view().contains_key(id@),
    {
        lookup(&self.running_apps, id).is_some()
    }
}

impl Default for AppLauncher {
    fn default() -> (l: Self)
        ensures
            l.is_initial(),
    {
        Self::new()
    }
}

} // verus!
