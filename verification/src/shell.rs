//! The desktop shell: dock, menu bar, workspaces, app finder, launcher,
//! exposé, system tray and window decorations.

pub mod appfinder;
pub mod decorations;
pub mod dock;
pub mod expose;
pub mod launcher;
pub mod menubar;
pub mod tray;
pub mod workspace;

use vstd::prelude::*;
use self::appfinder::AppFinder;
use self::dock::Dock;
use self::expose::ExposeManager;
use self::launcher::AppLauncher;
use self::menubar::MenuBar;
use self::tray::SystemTray;
use self::workspace::WorkspaceManager;

verus! {

/// Every part of the shell, together.
pub struct Shell {
    pub dock: Dock,
    pub menu_bar: MenuBar,
    pub workspace_manager: WorkspaceManager,
    pub appfinder: AppFinder,
    pub app_launcher: AppLauncher,
    pub expose_manager: ExposeManager,
    pub system_tray: SystemTray,
}

impl Shell {
    /// Each part as it starts.
    pub open spec fn is_initial(&self) -> bool {
        &&& self.dock.is_initial()
        &&& self.menu_bar.is_initial()
        &&& self.workspace_manager.is_initial()
        &&& self.appfinder.is_initial()
        &&& self.app_launcher.is_initial()
        &&& self.expose_manager.is_initial()
        &&& self.system_tray.is_initial()
    }

    pub fn new() -> (s: Self)
        ensures
            s.is_initial(),
    {
        Shell {
            dock: Dock::new(),
            menu_bar: MenuBar::new(),
            workspace_manager: WorkspaceManager::new(),
            appfinder: AppFinder::new(),
            app_launcher: AppLauncher::new(),
            expose_manager: ExposeManager::new(),
            system_tray: SystemTray::new(),
        }
    }
}

impl Default for Shell {
    fn default() -> (s: Self)
        ensures
            s.is_initial(),
    {
        Self::new()
    }
}

} // verus!
