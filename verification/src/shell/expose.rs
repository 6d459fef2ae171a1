//! Exposé: the overview of all windows, and whether it is showing.

use vstd::prelude::*;

verus! {

#[derive(Debug, Clone, Copy, PartialEq, Eq, Structural)]
pub enum ExposeLayout {
    Grid,
    Fan,
    Stack,
}

impl Default for ExposeLayout {
    fn default() -> (l: Self)
        ensures
            l == ExposeLayout::Grid,
    {
        ExposeLayout::Grid
    }
}

#[derive(Debug, Clone)]
pub struct ExposedWindow {
    pub window_id: String,
    pub title: String,
    pub app_id: String,
}

impl ExposedWindow {
    pub fn new(window_id: String, title: String, app_id: String) -> (w: Self)
        ensures
            w.window_id@ == window_id@,
            w.title@ == title@,
            w.app_id@ == app_id@,
    {
        ExposedWindow { window_id, title, app_id }
    }
}

#[derive(Debug, Clone, Copy, PartialEq, Eq, Structural)]
pub struct ExposeState {
    pub active: bool,
    pub layout: ExposeLayout,
}

impl Default for ExposeState {
    /// Inactive, in a grid.
    fn default() -> (s: Self)
        ensures
            s == (ExposeState { active: false, layout: ExposeLayout::Grid }),
    {
        ExposeState { active: false, layout: ExposeLayout::Grid }
    }
}

#[derive(Debug, Clone, Copy, PartialEq, Eq, Structural)]
pub struct ExposeConfig {
    pub animation_duration_ms: u32,
    pub grid_columns: u32,
    pub grid_rows: u32,
}

impl Default for ExposeConfig {
    /// All zero.
    fn default() -> (c: Self)
        ensures
            c == (ExposeConfig { animation_duration_ms: 0, grid_columns: 0, grid_rows: 0 }),
    {
        ExposeConfig { animation_duration_ms: 0, grid_columns: 0, grid_rows: 0 }
    }
}

/// The state after a toggle: activity flipped, layout kept.
pub open spec fn toggled(s: ExposeState) -> ExposeState {
    ExposeState { active: !s.active, ..s }
}

/// Toggling twice gives back the state one started from.
pub proof fn lemma_toggle_twice(s: ExposeState)
    ensures
        toggled(toggled(s)) == s,
{
}

pub struct ExposeManager {
    pub state: ExposeState,
    pub config: ExposeConfig,
}

impl ExposeManager {
    /// Inactive, grid layout, all-zero configuration.
    pub open spec fn is_initial(&self) -> bool {
        &&& self.state == (ExposeState { active: false, layout: ExposeLayout::Grid })
        &&& self.config == (ExposeConfig { animation_duration_ms: 0, grid_columns: 0, grid_rows: 0 })
    }

    /// Inactive, grid layout, all-zero configuration.
    pub fn new() -> (m: Self)
        ensures
            m.is_initial(),
    {
        ExposeManager { state: ExposeState::default(), config: ExposeConfig::default() }
    }

    pub fn activate(&mut self)
        ensures
            final(self).state == (ExposeState { active: true, ..old(self).state }),
            final(self).config == old(self).config,
    {
        self.state.active = true;
    }

    pub fn deactivate(&mut self)
        ensures
            final(self).state == (ExposeState { active: false, ..old(self).state }),
            final(self).config == old(self).config,
    {
        self.state.active = false;
    }

    pub fn toggle(&mut self)
        ensures
            final(self).state == toggled(old(self).state),
            final(self).config == old(self).config,
    {
        self.state.active = !self.state.active;
    }
}

impl Default for ExposeManager {
    fn default() -> (m: Self)
        ensures
            m.is_initial(),
    {
        Self::new()
    }
}

} // verus!
