//! The menu bar: its menus and their items, status icons and the clock.

use vstd::prelude::*;
use vstd::string::*;
use std::collections::HashMap;
use crate::text::same_text;

verus! {

#[derive(Debug, Clone, Copy, PartialEq, Eq, Structural)]
pub enum MenuBarPosition {
    Top,
    Bottom,
}

impl Default for MenuBarPosition {
    fn default() -> (p: Self)
        ensures
            p == MenuBarPosition::Top,
    {
        MenuBarPosition::Top
    }
}

#[derive(Debug, Clone)]
pub struct MenuItem {
    pub id: String,
    pub label: String,
    pub shortcut: Option<String>,
    pub enabled: bool,
}

impl MenuItem {
    /// An enabled item without shortcut.
    pub fn new(id: String, label: String) -> (m: Self)
        ensures
            m.id@ == id@,
            m.label@ == label@,
            m.shortcut is None,
            m.enabled,
    {
        MenuItem { id, label, shortcut: None, enabled: true }
    }

    /// The same item with `shortcut` as its shortcut.
    pub fn with_shortcut(self, shortcut: String) -> (m: Self)
        ensures
            m.id == self.id,
            m.label == self.label,
            m.shortcut matches Some(s) && s@ == shortcut@,
            m.enabled == self.enabled,
    {
        let mut m = self;
        m.shortcut = Some(shortcut);
        m
    }
}

#[derive(Debug, Clone)]
pub struct Menu {
    pub id: String,
    pub label: String,
    pub items: Vec<MenuItem>,
    pub open: bool,
}

impl Menu {
    /// A closed menu without items.
    pub fn new(id: String, label: String) -> (m: Self)
        ensures
            m.id@ == id@,
            m.label@ == label@,
            m.items@.len() == 0,
            !m.open,
    {
        Menu { id, label, items: Vec::new(), open: false }
    }

    /// Append `item`.
    pub fn add_item(&mut self, item: MenuItem)
        ensures
            final(self).items@ == old(self).items@.push(item),
            final(self).id == old(self).id,
            final(self).label == old(self).label,
            final(self).open == old(self).open,
    {
        self.items.push(item);
    }

    pub fn open(&mut self)
        ensures
            final(self).open,
            final(self).id == old(self).id,
            final(self).label == old(self).label,
            final(self).items == old(self).items,
    {
        self.open = true;
    }

    pub fn close(&mut self)
        ensures
            !final(self).open,
            final(self).id == old(self).id,
            final(self).label == old(self).label,
            final(self).items == old(self).items,
    {
        self.open = false;
    }
}

#[derive(Debug, Clone)]
pub struct StatusIcon {
    pub id: String,
    pub tooltip: String,
    pub icon_path: Option<String>,
}

impl StatusIcon {
    /// An icon without image path.
    pub fn new(id: String, tooltip: String) -> (s: Self)
        ensures
            s.id@ == id@,
            s.tooltip@ == tooltip@,
            s.icon_path is None,
    {
        StatusIcon { id, tooltip, icon_path: None }
    }
}

#[derive(Debug, Clone, Copy, PartialEq, Eq, Structural)]
pub struct ClockState {
    pub hour_format_12h: bool,
    pub show_date: bool,
    pub show_seconds: bool,
}

impl ClockState {
    /// A 24-hour clock without date or seconds.
    pub fn new() -> (c: Self)
        ensures
            c == (ClockState { hour_format_12h: false, show_date: false, show_seconds: false }),
    {
        ClockState::default()
    }
}

impl Default for ClockState {
    fn default() -> (c: Self)
        ensures
            c == (ClockState { hour_format_12h: false, show_date: false, show_seconds: false }),
    {
        ClockState { hour_format_12h: false, show_date: false, show_seconds: false }
    }
}

/// The ids of a list of menus.
pub open spec fn menu_ids(s: Seq<Menu>) -> Seq<Seq<char>> {
    s.map_values(|m: Menu| m.id@)
}

/// The ids of a list of menu items.
pub open spec fn item_ids(s: Seq<MenuItem>) -> Seq<Seq<char>> {
    s.map_values(|m: MenuItem| m.id@)
}

/// The labels of a list of menu items.
pub open spec fn item_labels(s: Seq<MenuItem>) -> Seq<Seq<char>> {
    s.map_values(|m: MenuItem| m.label@)
}

/// `i` is the first position of `ids` that holds `id`.
pub open spec fn first_at(ids: Seq<Seq<char>>, id: Seq<char>, i: int) -> bool {
    &&& 0 <= i < ids.len()
    &&& ids[i] == id
    &&& forall|j: int| 0 <= j < i ==> ids[j] != id
}

pub struct MenuBar {
    pub position: MenuBarPosition,
    pub menus: Vec<Menu>,
    pub status_icons: HashMap<String, StatusIcon>,
    pub clock: ClockState,
    pub focused_menu: Option<String>,
}

impl MenuBar {
    /// The bar as it starts: at the top, with the system menu ("About
    /// OblivionOS", "Quit") and an empty File menu, all closed; no status
    /// icons, the default clock, nothing focused.
    pub open spec fn is_initial(&self) -> bool {
        &&& self.position == MenuBarPosition::Top
        &&& menu_ids(self.menus@) == seq!["apple"@, "file"@]
        &&& self.menus@[0].label@ == "OblivionOS"@
        &&& self.menus@[1].label@ == "File"@
        &&& item_ids(self.menus@[0].items@) == seq!["about"@, "quit"@]
        &&& item_labels(self.menus@[0].items@) == seq!["About OblivionOS"@, "Quit"@]
        &&& forall|i: int| 0 <= i < self.menus@[0].items@.len() ==> #[trigger] self.menus@[0].items@[i].shortcut is None
            && self.menus@[0].items@[i].enabled
        &&& self.menus@[1].items@.len() == 0
        &&& !self.menus@[0].open && !self.menus@[1].open
        &&& self.status_icons@ == Map::<String, StatusIcon>::empty()
        &&& self.clock == (ClockState { hour_format_12h: false, show_date: false, show_seconds: false })
        &&& self.focused_menu is None
    }

    pub fn new() -> (b: Self)
        ensures
            b.is_initial(),
    {
        let mut menus: Vec<Menu> = Vec::new();
        let mut apple = Menu::new(String::from_str("apple"), String::from_str("OblivionOS"));
        apple.add_item(MenuItem::new(String::from_str("about"), String::from_str("About OblivionOS")));
        apple.add_item(MenuItem::new(String::from_str("quit"), String::from_str("Quit")));
        menus.push(apple);
        menus.push(Menu::new(String::from_str("file"), String::from_str("File")));
        let b = MenuBar {
            position: MenuBarPosition::Top,
            menus,
            status_icons: HashMap::new(),
            clock: ClockState::default(),
            focused_menu: None,
        };
        assert(menu_ids(b.menus@) =~= seq!["apple"@, "file"@]);
        assert(item_ids(b.menus@[0].items@) =~= seq!["about"@, "quit"@]);
        assert(item_labels(b.menus@[0].items@) =~= seq!["About OblivionOS"@, "Quit"@]);
        b
    }

    /// Append `menu`, even if another has the same id.
    pub fn add_menu(&mut self, menu: Menu)
        ensures
            final(self).menus@ == old(self).menus@.push(menu),
            final(self).position == old(self).position,
            final(self).status_icons == old(self).status_icons,
            final(self).clock == old(self).clock,
            final(self).focused_menu == old(self).focused_menu,
    {
        self.menus.push(menu);
    }

    /// The first menu with id `id`, if any.
    pub fn get_menu(&self, id: &str) -> (r: Option<&Menu>)
        ensures
            match r {
                Some(m) => exists|i: int| first_at(menu_ids(self.menus@), id@, i) && *m == self.menus@[i],
                None => !menu_ids(self.menus@).contains(id@),
            },
    {
        let mut i: usize = 0;
        while i < self.menus.len()
            invariant
                i <= self.menus@.len(),
                forall|j: int| 0 <= j < i ==> menu_ids(self.menus@)[j] != id@,
            decreases self.menus@.len() - i,
        {
            if same_text(self.menus[i].id.as_str(), id) {
                assert(first_at(menu_ids(self.menus@), id@, i as int));
                return Some(&self.menus[i]);
            }
            i += 1;
        }
        None
    }

    /// The clock's text.
    pub fn format_time(&self) -> (s: String)
        ensures
            s@ == "00:00"@,
    {
        String::from_str("00:00")
    }

    /// The date's text.
    pub fn format_date(&self) -> (s: String)
        ensures
            s@ == "Mon Jan 1"@,
    {
        String::from_str("Mon Jan 1")
    }
}

impl Default for MenuBar {
    fn default() -> (b: Self)
        ensures
            b.is_initial(),
    {
        Self::new()
    }
}

} // verus!
