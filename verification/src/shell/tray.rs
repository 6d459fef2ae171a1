//! The system tray: its items, their menus, and whether it is shown.

use vstd::prelude::*;
use vstd::string::*;
use crate::text::same_text;

verus! {

#[derive(Debug, Clone)]
pub struct TrayItem {
    pub id: String,
    pub label: String,
    pub icon_path: Option<String>,
}

impl TrayItem {
    /// An item with an empty label and no icon.
    pub fn new(id: String) -> (t: Self)
        ensures
            t.id@ == id@,
            t.label@ == Seq::<char>::empty(),
            t.icon_path is None,
    {
        TrayItem { id, label: String::new(), icon_path: None }
    }

    /// The same item labelled `label`.
    pub fn with_label(self, label: String) -> (t: Self)
        ensures
            t.id == self.id,
            t.label@ == label@,
            t.icon_path == self.icon_path,
    {
        let mut t = self;
        t.label = label;
        t
    }
}

#[derive(Debug, Clone)]
pub struct TrayMenuItem {
    pub id: String,
    pub label: String,
    pub enabled: bool,
}

impl Default for TrayMenuItem {
    /// Empty id and label, disabled.
    fn default() -> (t: Self)
        ensures
            t.id@ == Seq::<char>::empty(),
            t.label@ == Seq::<char>::empty(),
            !t.enabled,
    {
        TrayMenuItem { id: String::new(), label: String::new(), enabled: false }
    }
}

#[derive(Debug, Clone)]
pub struct TrayMenu {
    pub items: Vec<TrayMenuItem>,
}

impl TrayMenu {
    pub fn new() -> (m: Self)
        ensures
            m.items@.len() == 0,
    {
        TrayMenu { items: Vec::new() }
    }

    /// Append `item`.
    pub fn add_item(&mut self, item: TrayMenuItem)
        ensures
            final(self).items@ == old(self).items@.push(item),
    {
        self.items.push(item);
    }
}

impl Default for TrayMenu {
    fn default() -> (m: Self)
        ensures
            m.items@.len() == 0,
    {
        TrayMenu::new()
    }
}

/// The items of `s` whose id is not `id`, in order.
pub open spec fn tray_items_without(s: Seq<TrayItem>, id: Seq<char>) -> Seq<TrayItem>
    decreases s.len(),
{
    if s.len() == 0 {
        Seq::empty()
    } else if s.last().id@ == id {
        tray_items_without(s.drop_last(), id)
    } else {
        tray_items_without(s.drop_last(), id).push(s.last())
    }
}

#[derive(Debug, Clone)]
pub struct SystemTray {
    pub items: Vec<TrayItem>,
    pub hidden: bool,
}

impl SystemTray {
    /// Shown, without items.
    pub open spec fn is_initial(&self) -> bool {
        self.items@.len() == 0 && !self.hidden
    }

    /// A shown tray without items.
    pub fn new() -> (t: Self)
        ensures
            t.is_initial(),
    {
        SystemTray { items: Vec::new(), hidden: false }
    }

    /// Append `item`, even if another has the same id.
    pub fn add_item(&mut self, item: TrayItem)
        ensures
            final(self).items@ == old(self).items@.push(item),
            final(self).hidden == old(self).hidden,
    {
        self.items.push(item);
    }

    /// Remove every item with id `id`, keeping the others in order.
    pub fn remove_item(&mut self, id: &str)
        ensures
            final(self).items@ == tray_items_without(old(self).items@, id@),
            final(self).hidden == old(self).hidden,
    {
        let ghost all = self.items@;
        let mut rest: Vec<TrayItem> = Vec::new();
        std::mem::swap(&mut rest, &mut self.items);
        let n = rest.len();
        let mut i: usize = 0;
        while i < n
            invariant
                n == all.len(),
                i <= n,
                rest@ == all.subrange(i as int, n as int),
                self.items@ == tray_items_without(all.subrange(0, i as int), id@),
                self.hidden == old(self).hidden,
                all == old(self).items@,
            decreases n - i,
        {
            let item = rest.remove(0);
            assert(item == all[i as int]);
            if !same_text(item.id.as_str(), id) {
                self.items.push(item);
            }
            proof {
                assert(all.subrange(0, i + 1).drop_last() =~= all.subrange(0, i as int));
                assert(rest@ =~= all.subrange(i + 1, n as int));
            }
            i += 1;
        }
        assert(all.subrange(0, n as int) =~= all);
    }

    pub fn show(&mut self)
        ensures
            !final(self).hidden,
            final(self).items == old(self).items,
    {
        self.hidden = false;
    }

    pub fn hide_tray(&mut self)
        ensures
            final(self).hidden,
            final(self).items == old(self).items,
    {
        self.hidden = true;
    }
}

impl Default for SystemTray {
    fn default() -> (t: Self)
        ensures
            t.is_initial(),
    {
        SystemTray::new()
    }
}

/// Removing an id leaves no item with that id, and keeps every other item.
pub proof fn lemma_tray_remove(s: Seq<TrayItem>, id: Seq<char>)
    ensures
        forall|i: int| 0 <= i < tray_items_without(s, id).len() ==> #[trigger] tray_items_without(s, id)[i].id@ != id,
        forall|i: int| 0 <= i < s.len() && #[trigger] s[i].id@ != id ==> tray_items_without(s, id).contains(s[i]),
        tray_items_without(s, id).len() <= s.len(),
    decreases s.len(),
{
    if s.len() > 0 {
        let d = s.drop_last();
        lemma_tray_remove(d, id);
        let r = tray_items_without(d, id);
        assert forall|i: int| 0 <= i < s.len() && #[trigger] s[i].id@ != id implies tray_items_without(s, id).contains(s[i]) by {
            if i < s.len() - 1 {
                assert(d[i] == s[i]);
                let k = choose|k: int| 0 <= k < r.len() && r[k] == d[i];
                if s.last().id@ != id {
                    assert(tray_items_without(s, id)[k] == s[i]);
                }
            } else {
                assert(tray_items_without(s, id)[r.len() as int] == s[i]);
            }
        }
    }
}

} // verus!
