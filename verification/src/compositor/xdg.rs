//! XDG shell objects: toplevels with fullscreen/maximized/active flags,
//! popups that are shown or dismissed, and the manager that creates,
//! finds, activates and destroys them.

use vstd::prelude::*;
use std::collections::HashMap;
use crate::maps::keys_of;

verus! {

broadcast use vstd::std_specs::hash::group_hash_axioms;

#[derive(Debug, Clone, Copy, PartialEq, Eq, Hash, Structural)]
pub struct XdgToplevelId(pub u32);

impl XdgToplevelId {
    pub fn new(id: u32) -> (r: Self)
        ensures
            r.0 == id,
    {
        XdgToplevelId(id)
    }

    pub fn as_u32(&self) -> (r: u32)
        ensures
            r == self.0,
    {
        self.0
    }
}

#[derive(Debug, Clone, Copy, PartialEq, Eq, Hash, Structural)]
pub struct XdgPopupId(pub u32);

impl XdgPopupId {
    pub fn new(id: u32) -> (r: Self)
        ensures
            r.0 == id,
    {
        XdgPopupId(id)
    }

    pub fn as_u32(&self) -> (r: u32)
        ensures
            r == self.0,
    {
        self.0
    }
}

#[derive(Debug, Clone, Copy, PartialEq, Eq, Structural)]
pub enum ToplevelState {
    Activated,
    Deactivated,
    Maximized,
    Fullscreen,
    Minimized,
}

#[derive(Debug, Clone, Copy, PartialEq, Eq, Structural)]
pub enum PopupState {
    Shown,
    Dismissed,
}

#[derive(Debug, Clone)]
pub struct XdgToplevel {
    pub id: XdgToplevelId,
    pub title: String,
    pub app_id: String,
    pub state: ToplevelState,
    pub x: i32,
    pub y: i32,
    pub width: u32,
    pub height: u32,
    pub min_width: Option<u32>,
    pub min_height: Option<u32>,
    pub max_width: Option<u32>,
    pub max_height: Option<u32>,
    pub decorations: bool,
    pub resizable: bool,
    pub fullscreen: bool,
    pub maximized: bool,
    pub minimized: bool,
    pub active: bool,
    pub urgent: bool,
}

/// `t` after `set_fullscreen(on)`: entering fullscreen leaves maximized.
pub open spec fn fullscreen_set(t: XdgToplevel, on: bool) -> XdgToplevel {
    XdgToplevel { fullscreen: on, maximized: if on { false } else { t.maximized }, ..t }
}

/// `t` after `set_maximized(on)`: maximizing leaves fullscreen.
pub open spec fn maximized_set(t: XdgToplevel, on: bool) -> XdgToplevel {
    XdgToplevel { maximized: on, fullscreen: if on { false } else { t.fullscreen }, ..t }
}

/// `t` after `set_active(on)`: activation clears the urgency hint.
pub open spec fn active_set(t: XdgToplevel, on: bool) -> XdgToplevel {
    XdgToplevel { active: on, urgent: if on { false } else { t.urgent }, ..t }
}

/// A toplevel is never both fullscreen and maximized.
pub open spec fn modes_exclusive(t: XdgToplevel) -> bool {
    !(t.fullscreen && t.maximized)
}

/// Fullscreen and maximized exclude each other: a toplevel that is not
/// both stays so through every setter, whatever it is asked.
pub proof fn lemma_modes_stay_exclusive(t: XdgToplevel, on: bool, w: u32, h: u32)
    requires
        modes_exclusive(t),
    ensures
        modes_exclusive(fullscreen_set(t, on)),
        modes_exclusive(maximized_set(t, on)),
        modes_exclusive(active_set(t, on)),
        modes_exclusive(XdgToplevel { width: w, height: h, ..t }),
{
}

impl XdgToplevel {
    /// `self` is a new toplevel with this id, title and app id: activated,
    /// 800 x 600 at the origin, no size limits, decorated, resizable,
    /// active, in no special mode.
    pub open spec fn is_new(&self, id: XdgToplevelId, title: Seq<char>, app_id: Seq<char>) -> bool {
        &&& self.id == id
        &&& self.title@ == title
        &&& self.app_id@ == app_id
        &&& self.state == ToplevelState::Activated
        &&& self.x == 0 && self.y == 0 && self.width == 800 && self.height == 600
        &&& self.min_width is None && self.min_height is None && self.max_width is None
            && self.max_height is None
        &&& self.decorations && self.resizable && self.active
        &&& !self.fullscreen && !self.maximized && !self.minimized && !self.urgent
    }

    /// A new toplevel: activated, 800 x 600 at the origin, no size limits,
    /// decorated, resizable, active, in no special mode.
    pub fn new(id: XdgToplevelId, title: String, app_id: String) -> (t: Self)
        ensures
            t.is_new(id, title@, app_id@),
    {
        XdgToplevel {
            id,
            title,
            app_id,
            state: ToplevelState::Activated,
            x: 0,
            y: 0,
            width: 800,
            height: 600,
            min_width: None,
            min_height: None,
            max_width: None,
            max_height: None,
            decorations: true,
            resizable: true,
            fullscreen: false,
            maximized: false,
            minimized: false,
            active: true,
            urgent: false,
        }
    }

    pub fn set_size(&mut self, width: u32, height: u32)
        ensures
            *final(self) == (XdgToplevel { width, height, ..*old(self) }),
    {
        self.width = width;
        self.height = height;
    }

    pub fn set_fullscreen(&mut self, fullscreen: bool)
        ensures
            *final(self) == fullscreen_set(*old(self), fullscreen),
    {
        self.fullscreen = fullscreen;
        if fullscreen {
            self.maximized = false;
        }
    }

    pub fn set_maximized(&mut self, maximized: bool)
        ensures
            *final(self) == maximized_set(*old(self), maximized),
    {
        self.maximized = maximized;
        if maximized {
            self.fullscreen = false;
        }
    }

    pub fn set_active(&mut self, active: bool)
        ensures
            *final(self) == active_set(*old(self), active),
    {
        self.active = active;
        if active {
            self.urgent = false;
        }
    }
}

#[derive(Debug, Clone)]
pub struct XdgPopup {
    pub id: XdgPopupId,
    pub state: PopupState,
    pub parent: Option<XdgToplevelId>,
    pub x: i32,
    pub y: i32,
    pub width: u32,
    pub height: u32,
}

impl XdgPopup {
    /// A new popup: dismissed, without parent, 300 x 200 at the origin.
    pub fn new(id: XdgPopupId) -> (p: Self)
        ensures
            p == (XdgPopup {
                id,
                state: PopupState::Dismissed,
                parent: None,
                x: 0,
                y: 0,
                width: 300,
                height: 200,
            }),
    {
        XdgPopup { id, state: PopupState::Dismissed, parent: None, x: 0, y: 0, width: 300, height: 200 }
    }

    pub fn show(&mut self)
        ensures
            *final(self) == (XdgPopup { state: PopupState::Shown, ..*old(self) }),
    {
        self.state = PopupState::Shown;
    }

    pub fn dismiss(&mut self)
        ensures
            *final(self) == (XdgPopup { state: PopupState::Dismissed, ..*old(self) }),
    {
        self.state = PopupState::Dismissed;
    }

    pub fn is_visible(&self) -> (r: bool)
        ensures
            r == (self.state == PopupState::Shown),
    {
        match self.state {
            PopupState::Shown => true,
            PopupState::Dismissed => false,
        }
    }
}

/// The toplevel ids of a list of toplevels.
pub open spec fn toplevel_ids(s: Seq<&XdgToplevel>) -> Seq<u32> {
    s.map_values(|t: &XdgToplevel| t.id.0)
}

pub struct XdgManager {
    toplevels: HashMap<u32, XdgToplevel>,
    popups: HashMap<u32, XdgPopup>,
    active_toplevel: Option<XdgToplevelId>,
    next_toplevel_id: u32,
    next_popup_id: u32,
}

impl XdgManager {
    pub closed spec fn toplevels_view(&self) -> Map<u32, XdgToplevel> {
        self.toplevels@
    }

    pub closed spec fn popups_view(&self) -> Map<u32, XdgPopup> {
        self.popups@
    }

    pub closed spec fn active_view(&self) -> Option<XdgToplevelId> {
        self.active_toplevel
    }

    pub closed spec fn next_toplevel_view(&self) -> u32 {
        self.next_toplevel_id
    }

    pub closed spec fn next_popup_view(&self) -> u32 {
        self.next_popup_id
    }

    /// Every object is stored under its own id, which is below the next id.
    pub open spec fn wf(&self) -> bool {
        &&& forall|k: u32| #[trigger]
            self.toplevels_view().contains_key(k) ==> self.toplevels_view()[k].id.0 == k && k
                < self.next_toplevel_view()
        &&& forall|k: u32| #[trigger]
            self.popups_view().contains_key(k) ==> self.popups_view()[k].id.0 == k && k
                < self.next_popup_view()
    }

    pub fn new() -> (m: Self)
        ensures
            m.wf(),
            m.toplevels_view() == Map::<u32, XdgToplevel>::empty(),
            m.popups_view() == Map::<u32, XdgPopup>::empty(),
            m.active_view() is None,
            m.next_toplevel_view() == 1,
            m.next_popup_view() == 1,
    {
        XdgManager {
            toplevels: HashMap::new(),
            popups: HashMap::new(),
            active_toplevel: None,
            next_toplevel_id: 1,
            next_popup_id: 1,
        }
    }

    /// Create a toplevel under the next toplevel id.
    pub fn create_toplevel(&mut self, title: String, app_id: String) -> (id: XdgToplevelId)
        requires
            old(self).wf(),
            old(self).next_toplevel_view() < u32::MAX,
        ensures
            final(self).wf(),
            id.0 == old(self).next_toplevel_view(),
            !old(self).toplevels_view().contains_key(id.0),
            final(self).next_toplevel_view() == old(self).next_toplevel_view() + 1,
            final(self).toplevels_view().dom() == old(self).toplevels_view().dom().insert(id.0),
            forall|k: u32| k != id.0 ==> final(self).toplevels_view().contains_key(k) ==> #[trigger] final(self).toplevels_view()[k] == old(self).toplevels_view()[k],
            final(self).toplevels_view()[id.0].is_new(id, title@, app_id@),
            final(self).popups_view() == old(self).popups_view(),
            final(self).active_view() == old(self).active_view(),
            final(self).next_popup_view() == old(self).next_popup_view(),
    {
        let id = XdgToplevelId(self.next_toplevel_id);
        self.next_toplevel_id = self.next_toplevel_id + 1;
        let toplevel = XdgToplevel::new(id, title, app_id);
        self.toplevels.insert(id.0, toplevel);
        id
    }

    /// Create a dismissed popup under the next popup id.
    pub fn create_popup(&mut self) -> (id: XdgPopupId)
        requires
            old(self).wf(),
            old(self).next_popup_view() < u32::MAX,
        ensures
            final(self).wf(),
            id.0 == old(self).next_popup_view(),
            !old(self).popups_view().contains_key(id.0),
            final(self).next_popup_view() == old(self).next_popup_view() + 1,
            final(self).popups_view() == old(self).popups_view().insert(id.0, XdgPopup {
                id,
                state: PopupState::Dismissed,
                parent: None,
                x: 0,
                y: 0,
                width: 300,
                height: 200,
            }),
            final(self).toplevels_view() == old(self).toplevels_view(),
            final(self).active_view() == old(self).active_view(),
            final(self).next_toplevel_view() == old(self).next_toplevel_view(),
    {
        let id = XdgPopupId(self.next_popup_id);
        self.next_popup_id = self.next_popup_id + 1;
        let popup = XdgPopup::new(id);
        self.popups.insert(id.0, popup);
        id
    }

    pub fn get_toplevel(&self, id: XdgToplevelId) -> (r: Option<&XdgToplevel>)
        ensures
            match r {
                Some(t) => self.toplevels_view().contains_key(id.0) && *t == self.toplevels_view()[id.0],
                None => !self.toplevels_view().contains_key(id.0),
            },
    {
        self.toplevels.get(&id.0)
    }

    pub fn get_popup(&self, id: XdgPopupId) -> (r: Option<&XdgPopup>)
        ensures
            match r {
                Some(p) => self.popups_view().contains_key(id.0) && *p == self.popups_view()[id.0],
                None => !self.popups_view().contains_key(id.0),
            },
    {
        self.popups.get(&id.0)
    }

    /// Forget a toplevel; if it was the active one, none is active any more.
    pub fn destroy_toplevel(&mut self, id: XdgToplevelId)
        requires
            old(self).wf(),
        ensures
            final(self).wf(),
            final(self).toplevels_view() == old(self).toplevels_view().remove(id.0),
            final(self).active_view() == if old(self).active_view() == Some(id) {
                None
            } else {
                old(self).active_view()
            },
            final(self).popups_view() == old(self).popups_view(),
            final(self).next_toplevel_view() == old(self).next_toplevel_view(),
            final(self).next_popup_view() == old(self).next_popup_view(),
    {
        if self.active_toplevel == Some(id) {
            self.active_toplevel = None;
        }
        self.toplevels.remove(&id.0);
    }

    /// Make `id` the active toplevel (or none): the previously active
    /// toplevel is deactivated, the new one activated.
    pub fn set_active_toplevel(&mut self, id: Option<XdgToplevelId>)
        requires
            old(self).wf(),
        ensures
            final(self).wf(),
            final(self).active_view() == id,
            ({
                let m0 = old(self).toplevels_view();
                let m1 = match old(self).active_view() {
                    Some(o) => if m0.contains_key(o.0) {
                        m0.insert(o.0, active_set(m0[o.0], false))
                    } else {
                        m0
                    },
                    None => m0,
                };
                final(self).toplevels_view() == match id {
                    Some(n) => if m1.contains_key(n.0) {
                        m1.insert(n.0, active_set(m1[n.0], true))
                    } else {
                        m1
                    },
                    None => m1,
                }
            }),
            final(self).popups_view() == old(self).popups_view(),
            final(self).next_toplevel_view() == old(self).next_toplevel_view(),
            final(self).next_popup_view() == old(self).next_popup_view(),
    {
        if let Some(old_id) = self.active_toplevel {
            if let Some(mut t) = self.toplevels.remove(&old_id.0) {
                t.set_active(false);
                self.toplevels.insert(old_id.0, t);
            }
        }
        assert(self.toplevels@.dom() =~= old(self).toplevels@.dom());
        self.active_toplevel = id;
        if let Some(new_id) = id {
            if let Some(mut t) = self.toplevels.remove(&new_id.0) {
                t.set_active(true);
                self.toplevels.insert(new_id.0, t);
            }
        }
        assert(self.toplevels@.dom() =~= old(self).toplevels@.dom());
    }

    /// Every toplevel, each once, in no particular order.
    pub fn get_all_toplevels(&self) -> (r: Vec<&XdgToplevel>)
        requires
            self.wf(),
        ensures
            forall|i: int|
                0 <= i < r@.len() ==> self.toplevels_view().contains_key(#[trigger] r@[i].id.0)
                    && self.toplevels_view()[r@[i].id.0] == *r@[i],
            toplevel_ids(r@).to_set() == self.toplevels_view().dom(),
            toplevel_ids(r@).no_duplicates(),
    {
        let keys = keys_of(&self.toplevels);
        let mut r: Vec<&XdgToplevel> = Vec::new();
        let mut i: usize = 0;
        while i < keys.len()
            invariant
                self.wf(),
                keys@.to_set() == self.toplevels@.dom(),
                i <= keys@.len(),
                toplevel_ids(r@) == keys@.subrange(0, i as int),
                forall|j: int|
                    0 <= j < r@.len() ==> self.toplevels@.contains_key(#[trigger] r@[j].id.0)
                        && self.toplevels@[r@[j].id.0] == *r@[j],
            decreases keys@.len() - i,
        {
            let k = keys[i];
            assert(keys@.to_set().contains(k));
            let t = self.toplevels.get(&k).unwrap();
            assert(self.toplevels_view().contains_key(k));
            assert(t.id.0 == k);
            let ghost before = r@;
            r.push(t);
            assert(toplevel_ids(r@) =~= toplevel_ids(before).push(k));
            assert(keys@.subrange(0, i + 1) =~= keys@.subrange(0, i as int).push(k));
            i += 1;
        }
        assert(keys@.subrange(0, keys@.len() as int) =~= keys@);
        r
    }
}

impl Default for XdgManager {
    fn default() -> (m: Self)
        ensures
            m.wf(),
            m.toplevels_view() == Map::<u32, XdgToplevel>::empty(),
            m.popups_view() == Map::<u32, XdgPopup>::empty(),
            m.active_view() is None,
            m.next_toplevel_view() == 1,
            m.next_popup_view() == 1,
    {
        Self::new()
    }
}

} // verus!
