use oblivion::shell::appfinder::{AppFinder, AppResult, SearchResult};
use oblivion::shell::decorations::{DecorationConfig, DecorationStyle, TrafficLight, WindowDecorations};
use oblivion::shell::dock::{Dock, DockConfig, DockItem, DockPosition, DockSize};
use oblivion::shell::expose::{ExposeLayout, ExposeManager};
use oblivion::shell::launcher::{AppEntry, AppLauncher, LaunchError, LaunchMode};
use oblivion::shell::menubar::{ClockState, Menu, MenuBar, MenuBarPosition, MenuItem};
use oblivion::shell::tray::{SystemTray, TrayItem, TrayMenu, TrayMenuItem};
use oblivion::shell::workspace::{WorkspaceId, WorkspaceManager};
use oblivion::shell::Shell;

#[test]
fn dock_starts_with_four_apps() {
    let d = Dock::new();
    let ids: Vec<&str> = d.items.iter().map(|i| i.id.as_str()).collect();
    assert_eq!(ids, vec!["filemanager", "terminal", "editor", "settings"]);
    assert_eq!(d.items[1].command, "oblivion-terminal");
    assert_eq!(d.config.position, DockPosition::Bottom);
    assert_eq!(d.config.size, DockSize::Medium);
    assert_eq!(d.config.icon_size, 48);
    assert!(d.config.magnification);
    assert_eq!(d.config, DockConfig::default());
}

#[test]
fn dock_add_get_remove() {
    let mut d = Dock::new();
    d.add_item(DockItem::new("x".to_string(), "X".to_string(), "x-cmd".to_string()));
    d.add_item(DockItem::new("x".to_string(), "X2".to_string(), "x-cmd".to_string()));
    assert_eq!(d.get_item("x").unwrap().name, "X");
    d.get_item_mut("terminal").unwrap().set_running(true);
    assert!(d.get_item("terminal").unwrap().running);
    d.remove_item("x");
    assert!(d.get_item("x").is_none());
    assert_eq!(d.items.len(), 4);
    assert!(d.get_item_mut("nope").is_none());
}

#[test]
fn workspaces_switch_and_move_windows() {
    let mut m = WorkspaceManager::new();
    assert_eq!(m.workspace_count(), 1);
    assert_eq!(m.get_active_workspace().unwrap().name, "Main");
    assert!(!m.get_active_workspace().unwrap().active);
    assert_eq!(m.get_active_workspace().unwrap().id, WorkspaceId::new(1));
    let dev = m.add_workspace("Dev".to_string());
    assert_eq!(dev, WorkspaceId::new(2));
    m.switch_to(dev);
    assert!(m.get_workspace(dev).unwrap().active);
    assert!(!m.get_workspace(WorkspaceId::new(1)).unwrap().active);
    m.move_window_to("w1", WorkspaceId::new(1));
    m.move_window_to("w1", dev);
    assert!(m.get_workspace(WorkspaceId::new(1)).unwrap().windows.is_empty());
    assert_eq!(m.get_workspace(dev).unwrap().windows, vec!["w1".to_string()]);
    m.remove_workspace(dev);
    assert_eq!(m.active_workspace, WorkspaceId::new(1));
    assert_eq!(m.workspace_count(), 1);
    m.remove_workspace(WorkspaceId::new(1));
    assert_eq!(m.workspace_count(), 1);
}

#[test]
fn menu_bar_initial_menus() {
    let b = MenuBar::new();
    assert_eq!(b.position, MenuBarPosition::Top);
    let apple = b.get_menu("apple").unwrap();
    assert_eq!(apple.label, "OblivionOS");
    let items: Vec<&str> = apple.items.iter().map(|i| i.label.as_str()).collect();
    assert_eq!(items, vec!["About OblivionOS", "Quit"]);
    assert!(b.get_menu("file").unwrap().items.is_empty());
    assert!(b.get_menu("edit").is_none());
    assert!(b.status_icons.is_empty());
    assert_eq!(b.format_time(), "00:00");
    assert_eq!(b.format_date(), "Mon Jan 1");
    assert_eq!(b.clock, ClockState::new());
    assert!(b.focused_menu.is_none());
}

#[test]
fn menus_open_close_and_items() {
    let mut b = MenuBar::default();
    let mut m = Menu::new("edit".to_string(), "Edit".to_string());
    m.add_item(MenuItem::new("copy".to_string(), "Copy".to_string()).with_shortcut("Ctrl+C".to_string()));
    m.open();
    assert!(m.open);
    m.close();
    assert!(!m.open);
    b.add_menu(m);
    let e = b.get_menu("edit").unwrap();
    assert_eq!(e.items[0].shortcut.as_deref(), Some("Ctrl+C"));
    assert!(e.items[0].enabled);
    assert_eq!(b.menus.len(), 3);
}

#[test]
fn tray_add_remove_show_hide() {
    let mut t = SystemTray::new();
    t.add_item(TrayItem::new("net".to_string()).with_label("Network".to_string()));
    t.add_item(TrayItem::new("vol".to_string()));
    t.add_item(TrayItem::new("net".to_string()));
    t.remove_item("net");
    let ids: Vec<&str> = t.items.iter().map(|i| i.id.as_str()).collect();
    assert_eq!(ids, vec!["vol"]);
    assert!(t.items[0].label.is_empty());
    t.hide_tray();
    assert!(t.hidden);
    t.show();
    assert!(!t.hidden);
    let mut menu = TrayMenu::new();
    menu.add_item(TrayMenuItem::default());
    assert_eq!(menu.items.len(), 1);
    assert!(!menu.items[0].enabled);
}

#[test]
fn expose_toggle_twice_is_identity() {
    let mut e = ExposeManager::new();
    assert!(!e.state.active);
    assert_eq!(e.state.layout, ExposeLayout::Grid);
    let before = e.state;
    e.toggle();
    assert!(e.state.active);
    e.toggle();
    assert_eq!(e.state, before);
    e.activate();
    e.activate();
    assert!(e.state.active);
    e.deactivate();
    assert!(!e.state.active);
}

#[test]
fn appfinder_selection_stays_in_range() {
    let mut f = AppFinder::new();
    assert_eq!(f.max_results, 10);
    f.move_selection_down();
    assert_eq!(f.selected_index, 0);
    f.move_selection_up();
    assert_eq!(f.selected_index, 0);
    for i in 0..3 {
        f.results.push(SearchResult::App(AppResult::new(i.to_string(), "n".to_string(), "c".to_string())));
    }
    f.move_selection_down();
    f.move_selection_down();
    f.move_selection_down();
    assert_eq!(f.selected_index, 2);
    f.move_selection_up();
    assert_eq!(f.selected_index, 1);
    f.search("term");
    assert!(f.results.is_empty());
    assert_eq!(f.selected_index, 1);
}

#[test]
fn launcher_records_launches() {
    let mut l = AppLauncher::new();
    assert_eq!(l.config.mode, LaunchMode::Normal);
    assert!(l.config.focus_on_launch && !l.config.sandbox);
    match l.launch("term", 5) {
        Err(e) => {
            assert!(matches!(&e, LaunchError::NotFound(id) if id == "term"));
            assert_eq!(e.message(), "App not found: term");
        }
        Ok(_) => panic!("launch of an unknown app succeeded"),
    }
    assert!(!l.is_running("term"));
    l.register_app(AppEntry::new("term".to_string(), "Terminal".to_string(), "oblivion-terminal".to_string()));
    l.register_app(AppEntry::new("term".to_string(), "Term 2".to_string(), "oblivion-terminal".to_string()));
    assert_eq!(l.get_app("term").unwrap().name, "Term 2");
    assert_eq!(l.apps.len(), 1);
    assert_eq!(l.launch("term", 41).unwrap(), 41);
    assert_eq!(l.launch("term", 42).unwrap(), 42);
    assert!(l.is_running("term"));
    assert_eq!(l.launch_count("term"), 2);
    assert_eq!(l.launch_count("other"), 0);
    l.unregister_app("term");
    assert!(l.get_app("term").is_none());
    assert!(l.is_running("term"));
    assert!(l.launch("term", 43).is_err());
    assert_eq!(l.launch_count("term"), 2);
}

#[test]
fn decorations_defaults() {
    let mut d = WindowDecorations::new();
    assert_eq!(d.config.style, DecorationStyle::Server);
    assert_eq!(d.config.height, 38);
    assert_eq!(d.config.border_radius, (12, 12, 0, 0));
    assert_eq!(d.config.title_font_size, 13);
    assert_eq!(d.config.colors.button_close, [255, 95, 86, 255]);
    assert_eq!(d.config.colors.background, [50, 50, 50, 200]);
    d.set_hovered_button(Some(TrafficLight::Close));
    assert_eq!(d.hovered_button, Some(TrafficLight::Close));
    assert_eq!(DecorationStyle::default(), DecorationStyle::Server);
    assert_eq!(DecorationConfig::default().height, 38);
}

#[test]
fn shell_assembles_its_parts() {
    let s = Shell::new();
    assert_eq!(s.dock.items.len(), 4);
    assert_eq!(s.menu_bar.menus.len(), 2);
    assert_eq!(s.workspace_manager.workspace_count(), 1);
    assert!(s.appfinder.results.is_empty());
    assert!(s.app_launcher.apps.is_empty());
    assert!(!s.expose_manager.state.active);
    assert!(s.system_tray.items.is_empty() && !s.system_tray.hidden);
}
