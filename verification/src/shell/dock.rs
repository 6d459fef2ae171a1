//! The dock: launcher items with running/pinned flags and its look.

use vstd::prelude::*;
use vstd::string::*;
use crate::text::same_text;

verus! {

#[derive(Debug)]
pub struct DockItem {
    pub id: String,
    pub name: String,
    pub icon_path: Option<std::path::PathBuf>,
    pub command: String,
    pub running: bool,
    pub pinned: bool,
    pub notification_badge: Option<String>,
}

impl DockItem {
    /// An item without icon or badge, neither running nor pinned.
    pub fn new(id: String, name: String, command: String) -> (d: Self)
        ensures
            d.id@ == id@,
            d.name@ == name@,
            d.command@ == command@,
            d.icon_path is None,
            !d.running && !d.pinned,
            d.notification_badge is None,
    {
        DockItem { id, name, icon_path: None, command, running: false, pinned: false, notification_badge: None }
    }

    pub fn set_running(&mut self, running: bool)
        ensures
            final(self).running == running,
            final(self).id == old(self).id,
            final(self).name == old(self).name,
            final(self).icon_path == old(self).icon_path,
            final(self).command == old(self).command,
            final(self).pinned == old(self).pinned,
            final(self).notification_badge == old(self).notification_badge,
    {
        self.running = running;
    }
}

#[derive(Debug, Clone, Copy, PartialEq, Eq, Structural)]
pub enum DockPosition {
    Bottom,
    Left,
    Right,
}

impl Default for DockPosition {
    fn default() -> (p: Self)
        ensures
            p == DockPosition::Bottom,
    {
        DockPosition::Bottom
    }
}

#[derive(Debug, Clone, Copy, PartialEq, Eq, Structural)]
pub enum DockSize {
    Small,
    Medium,
    Large,
}

impl Default for DockSize {
    fn default() -> (s: Self)
        ensures
            s == DockSize::Medium,
    {
        DockSize::Medium
    }
}

#[derive(Debug, Clone, Copy, PartialEq, Eq, Structural)]
pub struct DockConfig {
    pub position: DockPosition,
    pub size: DockSize,
    pub magnification: bool,
    pub icon_size: u32,
}

impl Default for DockConfig {
    /// At the bottom, medium, magnifying, 48-pixel icons.
    fn default() -> (c: Self)
        ensures
            c == (DockConfig { position: DockPosition::Bottom, size: DockSize::Medium, magnification: true, icon_size: 48 }),
    {
        DockConfig { position: DockPosition::Bottom, size: DockSize::Medium, magnification: true, icon_size: 48 }
    }
}

/// The ids of a list of dock items.
pub open spec fn item_ids(s: Seq<DockItem>) -> Seq<Seq<char>> {
    s.map_values(|d: DockItem| d.id@)
}

/// The items of `s` whose id is not `id`, in order.
pub open spec fn items_without(s: Seq<DockItem>, id: Seq<char>) -> Seq<DockItem>
    decreases s.len(),
{
    if s.len() == 0 {
        Seq::empty()
    } else if s.last().id@ == id {
        items_without(s.drop_last(), id)
    } else {
        items_without(s.drop_last(), id).push(s.last())
    }
}

/// Index of the first item of `s` with id `id`, or `s.len()`.
pub open spec fn first_item(s: Seq<DockItem>, id: Seq<char>) -> int
    decreases s.len(),
{
    if s.len() == 0 {
        0
    } else if first_item(s.drop_last(), id) < s.len() - 1 {
        first_item(s.drop_last(), id)
    } else if s.last().id@ == id {
        s.len() - 1
    } else {
        s.len() as int
    }
}

proof fn lemma_first_item(s: Seq<DockItem>, id: Seq<char>, i: int)
    requires
        0 <= i <= s.len(),
        forall|j: int| 0 <= j < i ==> s[j].id@ != id,
        i == s.len() || s[i].id@ == id,
    ensures
        first_item(s, id) == i,
    decreases s.len(),
{
    if s.len() > 0 {
        if i < s.len() - 1 {
            lemma_first_item(s.drop_last(), id, i);
        } else {
            lemma_first_item(s.drop_last(), id, s.len() - 1);
        }
    }
}

pub struct Dock {
    pub items: Vec<DockItem>,
    pub config: DockConfig,
    pub hovered_index: Option<usize>,
}

impl Dock {
    /// Files, Terminal, Editor and Settings, none running or pinned,
    /// without icon or badge; the default look; nothing hovered.
    pub open spec fn is_initial(&self) -> bool {
        &&& item_ids(self.items@) == seq!["filemanager"@, "terminal"@, "editor"@, "settings"@]
        &&& self.items@[0].name@ == "Files"@ && self.items@[0].command@ == "oblivion-filemanager"@
        &&& self.items@[1].name@ == "Terminal"@ && self.items@[1].command@ == "oblivion-terminal"@
        &&& self.items@[2].name@ == "Editor"@ && self.items@[2].command@ == "oblivion-editor"@
        &&& self.items@[3].name@ == "Settings"@ && self.items@[3].command@ == "oblivion-settings"@
        &&& forall|i: int| 0 <= i < self.items@.len() ==> !#[trigger] self.items@[i].running
            && !self.items@[i].pinned && self.items@[i].icon_path is None
            && self.items@[i].notification_badge is None
        &&& self.config == DockConfig::default_spec()
        &&& self.hovered_index is None
    }

    /// The dock with Files, Terminal, Editor and Settings, default look,
    /// nothing hovered.
    pub fn new() -> (d: Self)
        ensures
            d.is_initial(),
    {
        let mut items: Vec<DockItem> = Vec::new();
        items.push(DockItem::new(String::from_str("filemanager"), String::from_str("Files"), String::from_str("oblivion-filemanager")));
        items.push(DockItem::new(String::from_str("terminal"), String::from_str("Terminal"), String::from_str("oblivion-terminal")));
        items.push(DockItem::new(String::from_str("editor"), String::from_str("Editor"), String::from_str("oblivion-editor")));
        items.push(DockItem::new(String::from_str("settings"), String::from_str("Settings"), String::from_str("oblivion-settings")));
        assert(item_ids(items@) =~= seq!["filemanager"@, "terminal"@, "editor"@, "settings"@]);
        Dock { items, config: DockConfig::default(), hovered_index: None }
    }

    /// Append an item, even if another has the same id.
    pub fn add_item(&mut self, item: DockItem)
        ensures
            final(self).items@ == old(self).items@.push(item),
            final(self).config == old(self).config,
            final(self).hovered_index == old(self).hovered_index,
    {
        self.items.push(item);
    }

    /// Remove every item with id `id`.
    pub fn remove_item(&mut self, id: &str)
        ensures
            final(self).items@ == items_without(old(self).items@, id@),
            final(self).config == old(self).config,
            final(self).hovered_index == old(self).hovered_index,
    {
        let ghost all = self.items@;
        let mut rest: Vec<DockItem> = Vec::new();
        std::mem::swap(&mut rest, &mut self.items);
        let n = rest.len();
        let mut i: usize = 0;
        while i < n
            invariant
                n == all.len(),
                i <= n,
                rest@ == all.subrange(i as int, n as int),
                self.items@ == items_without(all.subrange(0, i as int), id@),
                self.config == old(self).config,
                self.hovered_index == old(self).hovered_index,
                all == old(self).items@,
            decreases n - i,
        {
            let item = rest.remove(0);
            assert(item == all[i as int]);
            if !same_text(item.id.as_str(), id) {
                self.items.push(item);
            }
            proof {
                assert(all.subrange(0, i + 1).drop_last() =~= all.subrange(0, i as int));
                assert(rest@ =~= all.subrange(i + 1, n as int));
            }
            i += 1;
        }
        assert(all.subrange(0, n as int) =~= all);
    }

    fn position(&self, id: &str) -> (i: usize)
        ensures
            i == first_item(self.items@, id@),
            i <= self.items@.len(),
    {
        let mut i: usize = 0;
        while i < self.items.len()
            invariant
                i <= self.items@.len(),
                forall|j: int| 0 <= j < i ==> self.items@[j].id@ != id@,
            decreases self.items@.len() - i,
        {
            if same_text(self.items[i].id.as_str(), id) {
                proof {
                    lemma_first_item(self.items@, id@, i as int);
                }
                return i;
            }
            i += 1;
        }
        proof {
            lemma_first_item(self.items@, id@, i as int);
        }
        i
    }

    /// The first item with id `id`, if any.
    pub fn get_item(&self, id: &str) -> (r: Option<&DockItem>)
        ensures
            match r {
                Some(d) => first_item(self.items@, id@) < self.items@.len() && *d
                    == self.items@[first_item(self.items@, id@)],
                None => first_item(self.items@, id@) == self.items@.len(),
            },
    {
        let i = self.position(id);
        if i < self.items.len() {
            Some(&self.items[i])
        } else {
            None
        }
    }

    /// The first item with id `id`, if any, to change in place.
    pub fn get_item_mut(&mut self, id: &str) -> (r: Option<&mut DockItem>)
        ensures
            match r {
                Some(d) => first_item(old(self).items@, id@) < old(self).items@.len() && *d
                    == old(self).items@[first_item(old(self).items@, id@)] && final(self).items@
                    == old(self).items@.update(first_item(old(self).items@, id@), *final(d)),
                None => first_item(old(self).items@, id@) == old(self).items@.len() && final(self).items@
                    == old(self).items@,
            },
            final(self).config == old(self).config,
            final(self).hovered_index == old(self).hovered_index,
    {
        let i = self.position(id);
        if i < self.items.len() {
            Some(&mut self.items[i])
        } else {
            None
        }
    }
}

impl DockConfig {
    pub open spec fn default_spec() -> DockConfig {
        DockConfig { position: DockPosition::Bottom, size: DockSize::Medium, magnification: true, icon_size: 48 }
    }
}

} // verus!
