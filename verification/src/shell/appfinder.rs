//! The app finder: search results and the selection among them.

use vstd::prelude::*;

verus! {

#[derive(Debug, Clone, Copy, PartialEq, Eq, Structural)]
pub enum AppCategory {
    Applications,
    Settings,
}

#[derive(Debug, Clone)]
pub struct AppResult {
    pub id: String,
    pub name: String,
    pub command: String,
}

impl AppResult {
    pub fn new(id: String, name: String, command: String) -> (a: Self)
        ensures
            a.id@ == id@,
            a.name@ == name@,
            a.command@ == command@,
    {
        AppResult { id, name, command }
    }
}

#[derive(Debug, Clone)]
pub enum SearchResult {
    App(AppResult),
    Command(String),
}

/// The last index of a list of `len` results; zero for an empty list.
pub open spec fn last_index(len: nat) -> int {
    if len == 0 {
        0
    } else {
        len - 1
    }
}

/// The selection after moving down among `len` results: one further,
/// unless it is at (or beyond) the last one.
pub open spec fn moved_down(i: int, len: nat) -> int {
    if i < last_index(len) {
        i + 1
    } else {
        i
    }
}

/// The selection after moving up: one back, unless it is at the top.
pub open spec fn moved_up(i: int) -> int {
    if i > 0 {
        i - 1
    } else {
        i
    }
}

/// A selection on a result (or at the top of an empty list) stays so
/// whichever way it moves, and moving down then up comes back to where it
/// started whenever the move down moved.
pub proof fn lemma_selection_moves(i: int, len: nat)
    requires
        0 <= i <= last_index(len),
    ensures
        0 <= moved_down(i, len) <= last_index(len),
        0 <= moved_up(i) <= last_index(len),
        i < last_index(len) ==> moved_up(moved_down(i, len)) == i,
{
}

pub struct AppFinder {
    pub results: Vec<SearchResult>,
    pub selected_index: usize,
    pub max_results: usize,
}

impl AppFinder {
    /// No results, the first one selected, at most ten shown.
    pub open spec fn is_initial(&self) -> bool {
        self.results@.len() == 0 && self.selected_index == 0 && self.max_results == 10
    }

    /// No results, the first one selected, at most ten shown.
    pub fn new() -> (f: Self)
        ensures
            f.is_initial(),
    {
        AppFinder { results: Vec::new(), selected_index: 0, max_results: 10 }
    }

    /// Start a search for `query`: the earlier results are dropped; the
    /// selection and the limit stay.
    pub fn search(&mut self, query: &str)
        ensures
            final(self).results@.len() == 0,
            final(self).selected_index == old(self).selected_index,
            final(self).max_results == old(self).max_results,
    {
        self.results.clear();
    }

    pub fn move_selection_up(&mut self)
        ensures
            final(self).selected_index == moved_up(old(self).selected_index as int),
            final(self).results == old(self).results,
            final(self).max_results == old(self).max_results,
    {
        if self.selected_index > 0 {
            self.selected_index -= 1;
        }
    }

    pub fn move_selection_down(&mut self)
        ensures
            final(self).selected_index == moved_down(old(self).selected_index as int, old(self).results@.len()),
            final(self).results == old(self).results,
            final(self).max_results == old(self).max_results,
    {
        let last = self.results.len().saturating_sub(1);
        if self.selected_index < last {
            self.selected_index += 1;
        }
    }
}

impl Default for AppFinder {
    fn default() -> (f: Self)
        ensures
            f.is_initial(),
    {
        Self::new()
    }
}

} // verus!
