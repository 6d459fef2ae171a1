//! Windows and the window manager: geometry with size limits, maximize /
//! fullscreen save-and-restore, grabs, focus, stacking order and closing.

use vstd::prelude::*;
use std::collections::HashMap;
use crate::maps::keys_of;

verus! {

broadcast use vstd::std_specs::hash::group_hash_axioms;

#[verifier::external_type_specification]
#[verifier::external_body]
pub struct ExInstant(std::time::Instant);

/// `Instant::now()`: the current time of the monotonic clock. Nothing is
/// claimed of the value it returns.
#[verifier::external_body]
fn now() -> std::time::Instant {
    std::time::Instant::now()
}

/// `HashMap::get_mut`: a mutable reference to the window under `k`, when
/// there is one; what is written through it is what the map then holds
/// under `k`, and no other entry changes.
#[verifier::external_body]
fn window_entry(m: &mut HashMap<u32, Window>, k: u32) -> (r: Option<&mut Window>)
    ensures
        match r {
            Some(w) => old(m)@.contains_key(k) && *w == old(m)@[k] && final(m)@ == old(m)@.insert(k, *final(w)),
            None => !old(m)@.contains_key(k) && final(m)@ == old(m)@,
        },
{
    m.get_mut(&k)
}

#[derive(Debug, Clone, Copy, PartialEq, Eq, Hash, Structural)]
pub struct WindowId(pub u32);

impl WindowId {
    pub fn new(id: u32) -> (r: Self)
        ensures
            r.0 == id,
    {
        WindowId(id)
    }

    pub fn as_u32(&self) -> (r: u32)
        ensures
            r == self.0,
    {
        self.0
    }
}

#[derive(Debug, Clone, Copy, PartialEq, Eq, Structural)]
pub enum WindowState {
    Normal,
    Minimized,
    Maximized,
    Fullscreen,
    Floating,
    Hidden,
    Closing,
}

#[derive(Debug, Clone, Copy, PartialEq, Eq, Structural)]
pub enum WindowRole {
    Normal,
    Dialog,
    Modal,
    Splash,
    Utility,
    Dock,
    Toolbar,
    Menu,
    Popup,
}

#[derive(Debug, Clone, Copy, PartialEq, Eq, Structural)]
pub enum WindowDecoration {
    NoDecoration,
    Client,
    Server,
}

#[derive(Debug, Clone, Copy, PartialEq, Eq, Structural)]
pub enum GrabMode {
    Idle,
    Moving,
    Resizing,
    EdgeResizing,
    Keyboard,
}

#[derive(Debug, Clone, Copy, PartialEq, Eq, Structural)]
pub enum ResizeEdge {
    Left,
    Right,
    Top,
    Bottom,
    TopLeft,
    TopRight,
    BottomLeft,
    BottomRight,
}

/// A top-level window. `opacity_bits` is the bit pattern of the window's
/// `f32` opacity.
#[derive(Debug)]
pub struct Window {
    pub id: WindowId,
    pub title: String,
    pub app_id: String,
    pub state: WindowState,
    pub role: WindowRole,
    pub decoration: WindowDecoration,
    pub x: i32,
    pub y: i32,
    pub width: u32,
    pub height: u32,
    pub saved_x: Option<i32>,
    pub saved_y: Option<i32>,
    pub saved_width: Option<u32>,
    pub saved_height: Option<u32>,
    pub min_width: Option<u32>,
    pub min_height: Option<u32>,
    pub max_width: Option<u32>,
    pub max_height: Option<u32>,
    pub z_index: u32,
    pub stack_index: u32,
    pub visible: bool,
    pub focused: bool,
    pub urgent: bool,
    pub modal: bool,
    pub pinned: bool,
    pub shadow: bool,
    pub opacity_bits: u32,
    pub grab_mode: GrabMode,
    pub grab_offset: Option<(i32, i32)>,
    pub grab_edge: Option<ResizeEdge>,
    pub created_at: std::time::Instant,
    pub focused_at: Option<std::time::Instant>,
    pub last_configure: Option<std::time::Instant>,
    pub pid: Option<u32>,
    pub wm_class: String,
}

/// The bit pattern of the `f32` value 1.0.
pub const OPACITY_OPAQUE: u32 = 0x3f80_0000;

/// `v` raised to `min` when that is set, then lowered to `max` when that is set.
pub open spec fn clamp_dim(v: u32, min: Option<u32>, max: Option<u32>) -> u32 {
    let a = match min {
        Some(m) => if v < m {
            m
        } else {
            v
        },
        None => v,
    };
    match max {
        Some(m) => if a > m {
            m
        } else {
            a
        },
        None => a,
    }
}

/// `v` read as the `i32` with the same bits.
pub open spec fn as_i32(v: u32) -> int {
    if v < 0x8000_0000 {
        v as int
    } else {
        v as int - 0x1_0000_0000
    }
}

/// `w` maximized: its geometry saved first unless it was maximized already.
pub open spec fn maximized(w: Window) -> Window {
    if w.state != WindowState::Maximized {
        Window {
            state: WindowState::Maximized,
            saved_x: Some(w.x),
            saved_y: Some(w.y),
            saved_width: Some(w.width),
            saved_height: Some(w.height),
            ..w
        }
    } else {
        w
    }
}

/// `w` has a complete saved geometry.
pub open spec fn has_saved(w: Window) -> bool {
    w.saved_x is Some && w.saved_y is Some && w.saved_width is Some && w.saved_height is Some
}

/// `w` restored to normal; a maximized or fullscreen window with a
/// complete saved geometry gets it back.
pub open spec fn restored(w: Window) -> Window {
    if (w.state == WindowState::Maximized || w.state == WindowState::Fullscreen) && has_saved(w) {
        Window {
            state: WindowState::Normal,
            x: w.saved_x->0,
            y: w.saved_y->0,
            width: w.saved_width->0,
            height: w.saved_height->0,
            ..w
        }
    } else {
        Window { state: WindowState::Normal, ..w }
    }
}

/// `w` after asking for fullscreen `on` (entering saves the geometry,
/// leaving restores it).
pub open spec fn with_fullscreen(w: Window, on: bool) -> Window {
    if on && w.state != WindowState::Fullscreen {
        Window {
            state: WindowState::Fullscreen,
            saved_x: Some(w.x),
            saved_y: Some(w.y),
            saved_width: Some(w.width),
            saved_height: Some(w.height),
            ..w
        }
    } else if !on && w.state == WindowState::Fullscreen {
        restored(w)
    } else {
        w
    }
}

/// Two windows have the same position and size.
pub open spec fn same_geometry(a: Window, b: Window) -> bool {
    a.x == b.x && a.y == b.y && a.width == b.width && a.height == b.height
}

/// Maximizing a window that is not maximized and then restoring it gives
/// back its position and size, in the normal state.
pub proof fn lemma_maximize_restore(w: Window)
    requires
        w.state != WindowState::Maximized,
    ensures
        same_geometry(restored(maximized(w)), w),
        restored(maximized(w)).state == WindowState::Normal,
{
}

/// Entering and then leaving fullscreen gives back a window's position and
/// size, in the normal state.
pub proof fn lemma_fullscreen_round_trip(w: Window)
    requires
        w.state != WindowState::Fullscreen,
    ensures
        same_geometry(with_fullscreen(with_fullscreen(w, true), false), w),
        with_fullscreen(with_fullscreen(w, true), false).state == WindowState::Normal,
{
}

/// A resized side respects both limits whenever the minimum does not
/// exceed the maximum.
pub proof fn lemma_clamp_within_limits(v: u32, min: u32, max: u32)
    requires
        min <= max,
    ensures
        min <= clamp_dim(v, Some(min), Some(max)) <= max,
        min <= v <= max ==> clamp_dim(v, Some(min), Some(max)) == v,
{
}

impl Window {
    /// A window's far edges fit the `i32` coordinate range.
    pub open spec fn edges_fit(&self) -> bool {
        &&& i32::MIN <= self.x + as_i32(self.width) <= i32::MAX
        &&& i32::MIN <= self.y + as_i32(self.height) <= i32::MAX
    }

    /// The sums that testing whether `(px, py)` lies inside the window
    /// computes fit the `i32` range: the right edge once the point is not
    /// left of the window, the bottom edge once it is within its columns
    /// and not above it.
    pub open spec fn point_test_fits(&self, px: int, py: int) -> bool {
        &&& px >= self.x ==> i32::MIN <= self.x + as_i32(self.width) <= i32::MAX
        &&& px >= self.x && px < self.x + as_i32(self.width) && py >= self.y ==> i32::MIN
            <= self.y + as_i32(self.height) <= i32::MAX
    }

    /// Painting the window computes its far edges only when it is shown
    /// and not empty; then they fit the `i32` range.
    pub open spec fn paint_fits(&self) -> bool {
        shown(*self) && self.width > 0 && self.height > 0 ==> self.edges_fit()
    }

    /// The point lies inside the window.
    pub open spec fn spec_contains(&self, px: int, py: int) -> bool {
        px >= self.x && px < self.x + as_i32(self.width) && py >= self.y && py < self.y + as_i32(
            self.height,
        )
    }

    /// Every field a new window starts with, but its stacking height, its
    /// focus and the times it records: normal role and state, 800 x 600 at
    /// (100, 100), at least 400 x 300 with no maximum, nothing saved,
    /// server-decorated, visible, opaque, with a shadow, not urgent, modal
    /// or pinned, not grabbed, no configure, pid or class.
    pub open spec fn is_fresh(&self, id: WindowId, title: Seq<char>, app_id: Seq<char>) -> bool {
        &&& self.id == id
        &&& self.title@ == title
        &&& self.app_id@ == app_id
        &&& self.state == WindowState::Normal
        &&& self.role == WindowRole::Normal
        &&& self.decoration == WindowDecoration::Server
        &&& self.x == 100 && self.y == 100 && self.width == 800 && self.height == 600
        &&& self.saved_x is None && self.saved_y is None && self.saved_width is None
            && self.saved_height is None
        &&& self.min_width == Some(400u32) && self.min_height == Some(300u32)
        &&& self.max_width is None && self.max_height is None
        &&& self.stack_index == 0
        &&& self.visible && !self.urgent && !self.modal && !self.pinned && self.shadow
        &&& self.opacity_bits == OPACITY_OPAQUE
        &&& self.grab_mode == GrabMode::Idle && self.grab_offset is None && self.grab_edge is None
        &&& self.last_configure is None && self.pid is None
        &&& self.wm_class@ == Seq::<char>::empty()
    }

    /// A new window: normal, 800 x 600 at (100, 100), at least 400 x 300,
    /// server-decorated, visible, opaque, with a shadow, unfocused.
    pub fn new(id: WindowId, title: String, app_id: String) -> (w: Self)
        ensures
            w.is_fresh(id, title@, app_id@),
            w.z_index == 0,
            !w.focused,
            w.focused_at is None,
    {
        Window {
            id,
            title,
            app_id,
            state: WindowState::Normal,
            role: WindowRole::Normal,
            decoration: WindowDecoration::Server,
            x: 100,
            y: 100,
            width: 800,
            height: 600,
            saved_x: None,
            saved_y: None,
            saved_width: None,
            saved_height: None,
            min_width: Some(400),
            min_height: Some(300),
            max_width: None,
            max_height: None,
            z_index: 0,
            stack_index: 0,
            visible: true,
            focused: false,
            urgent: false,
            modal: false,
            pinned: false,
            shadow: true,
            opacity_bits: OPACITY_OPAQUE,
            grab_mode: GrabMode::Idle,
            grab_offset: None,
            grab_edge: None,
            created_at: now(),
            focused_at: None,
            last_configure: None,
            pid: None,
            wm_class: String::new(),
        }
    }

    pub fn set_position(&mut self, x: i32, y: i32)
        ensures
            *final(self) == (Window { x, y, ..*old(self) }),
    {
        self.x = x;
        self.y = y;
    }

    /// Resize, keeping each side within its minimum and maximum.
    pub fn set_size(&mut self, width: u32, height: u32)
        ensures
            *final(self) == (Window {
                width: clamp_dim(width, old(self).min_width, old(self).max_width),
                height: clamp_dim(height, old(self).min_height, old(self).max_height),
                ..*old(self)
            }),
    {
        let width = clamp(width, self.min_width, self.max_width);
        let height = clamp(height, self.min_height, self.max_height);
        self.width = width;
        self.height = height;
    }

    /// Focus the window: back to normal, focused, no longer urgent, and
    /// stamped with the time of focus.
    pub fn activate(&mut self)
        ensures
            final(self).focused_at is Some,
            *final(self) == (Window {
                state: WindowState::Normal,
                focused: true,
                urgent: false,
                focused_at: final(self).focused_at,
                ..*old(self)
            }),
    {
        self.state = WindowState::Normal;
        self.focused = true;
        self.urgent = false;
        self.focused_at = Some(now());
    }

    pub fn minimize(&mut self)
        ensures
            *final(self) == (Window {
                state: WindowState::Minimized,
                focused: false,
                ..*old(self)
            }),
    {
        self.state = WindowState::Minimized;
        self.focused = false;
    }

    /// Maximize; the geometry is saved unless the window was maximized already.
    pub fn maximize(&mut self)
        ensures
            *final(self) == maximized(*old(self)),
    {
        if self.state != WindowState::Maximized {
            self.saved_x = Some(self.x);
            self.saved_y = Some(self.y);
            self.saved_width = Some(self.width);
            self.saved_height = Some(self.height);
        }
        self.state = WindowState::Maximized;
    }

    /// Back to normal; a maximized or fullscreen window with a complete
    /// saved geometry gets that geometry back.
    pub fn restore(&mut self)
        ensures
            *final(self) == restored(*old(self)),
    {
        if self.state == WindowState::Maximized || self.state == WindowState::Fullscreen {
            match (self.saved_x, self.saved_y, self.saved_width, self.saved_height) {
                (Some(x), Some(y), Some(width), Some(height)) => {
                    self.x = x;
                    self.y = y;
                    self.width = width;
                    self.height = height;
                },
                _ => {},
            }
        }
        self.state = WindowState::Normal;
    }

    /// Enter fullscreen (saving the geometry) or leave it (restoring).
    pub fn set_fullscreen(&mut self, fullscreen: bool)
        ensures
            *final(self) == with_fullscreen(*old(self), fullscreen),
    {
        if fullscreen && self.state != WindowState::Fullscreen {
            self.saved_x = Some(self.x);
            self.saved_y = Some(self.y);
            self.saved_width = Some(self.width);
            self.saved_height = Some(self.height);
            self.state = WindowState::Fullscreen;
        } else if !fullscreen && self.state == WindowState::Fullscreen {
            self.restore();
        }
    }

    pub fn start_drag(&mut self, offset_x: i32, offset_y: i32)
        ensures
            *final(self) == (Window {
                grab_mode: GrabMode::Moving,
                grab_offset: Some((offset_x, offset_y)),
                ..*old(self)
            }),
    {
        self.grab_mode = GrabMode::Moving;
        self.grab_offset = Some((offset_x, offset_y));
    }

    /// Start resizing from `edge`: a side edge resizes one dimension, any
    /// other edge both.
    pub fn start_resize(&mut self, edge: ResizeEdge, offset_x: i32, offset_y: i32)
        ensures
            *final(self) == (Window {
                grab_mode: if edge == ResizeEdge::Left || edge == ResizeEdge::Right {
                    GrabMode::EdgeResizing
                } else {
                    GrabMode::Resizing
                },
                grab_edge: Some(edge),
                grab_offset: Some((offset_x, offset_y)),
                ..*old(self)
            }),
    {
        self.grab_mode = match edge {
            ResizeEdge::Left | ResizeEdge::Right => GrabMode::EdgeResizing,
            _ => GrabMode::Resizing,
        };
        self.grab_edge = Some(edge);
        self.grab_offset = Some((offset_x, offset_y));
    }

    pub fn end_grab(&mut self)
        ensures
            *final(self) == (Window {
                grab_mode: GrabMode::Idle,
                grab_edge: None,
                grab_offset: None,
                ..*old(self)
            }),
    {
        self.grab_mode = GrabMode::Idle;
        self.grab_edge = None;
        self.grab_offset = None;
    }

    pub fn is_resizing(&self) -> (r: bool)
        ensures
            r == (self.grab_mode == GrabMode::Resizing || self.grab_mode
                == GrabMode::EdgeResizing),
    {
        match self.grab_mode {
            GrabMode::Resizing | GrabMode::EdgeResizing => true,
            _ => false,
        }
    }

    pub fn is_moving(&self) -> (r: bool)
        ensures
            r == (self.grab_mode == GrabMode::Moving),
    {
        match self.grab_mode {
            GrabMode::Moving => true,
            _ => false,
        }
    }

    /// Whether `(px, py)` lies inside the window.
    pub fn contains_point(&self, px: i32, py: i32) -> (r: bool)
        requires
            self.point_test_fits(px as int, py as int),
        ensures
            r == self.spec_contains(px as int, py as int),
    {
        if px < self.x {
            return false;
        }
        let w = to_i32(self.width);
        if px >= self.x + w {
            return false;
        }
        if py < self.y {
            return false;
        }
        let h = to_i32(self.height);
        py < self.y + h
    }
}

/// `v` read as the `i32` with the same bits.
pub fn to_i32(v: u32) -> (r: i32)
    ensures
        r as int == as_i32(v),
{
    let r = #[verifier::truncate] (v as i32);
    assert(v < 0x8000_0000 ==> r == v) by (bit_vector)
        requires
            r == #[verifier::truncate] (v as i32),
    ;
    assert(v >= 0x8000_0000 ==> r as int == v as int - 0x1_0000_0000) by (bit_vector)
        requires
            r == #[verifier::truncate] (v as i32),
    ;
    r
}

fn clamp(v: u32, min: Option<u32>, max: Option<u32>) -> (r: u32)
    ensures
        r == clamp_dim(v, min, max),
{
    let mut v = v;
    if let Some(m) = min {
        if v < m {
            v = m;
        }
    }
    if let Some(m) = max {
        if v > m {
            v = m;
        }
    }
    v
}

/// The window is drawn: visible and not minimized.
pub open spec fn shown(w: Window) -> bool {
    w.visible && w.state != WindowState::Minimized
}

/// The window ids of a list of windows.
pub open spec fn ids_of(s: Seq<&Window>) -> Seq<u32> {
    s.map_values(|w: &Window| w.id.0)
}

/// The ids of a list of window ids.
pub open spec fn stack_ids(s: Seq<WindowId>) -> Seq<u32> {
    s.map_values(|w: WindowId| w.0)
}

/// `r` lists, each once, exactly the windows of `m` that satisfy `p`.
pub open spec fn lists_exactly(r: Seq<&Window>, m: Map<u32, Window>, p: spec_fn(Window) -> bool) -> bool {
    &&& forall|i: int|
        0 <= i < r.len() ==> m.contains_key(#[trigger] r[i].id.0) && m[r[i].id.0] == *r[i] && p(
            *r[i],
        )
    &&& forall|k: u32| m.contains_key(k) && p(m[k]) ==> #[trigger] ids_of(r).contains(k)
    &&& ids_of(r).no_duplicates()
}

/// The windows of `r` have non-decreasing z-indices (non-increasing when `desc`).
pub open spec fn sorted_by_z(r: Seq<&Window>, desc: bool) -> bool {
    forall|i: int, j: int|
        0 <= i < j < r.len() ==> if desc {
            r[i].z_index >= r[j].z_index
        } else {
            r[i].z_index <= r[j].z_index
        }
}

/// `m` with the window `f` names, if it has one, no longer focused.
pub open spec fn unfocus(m: Map<u32, Window>, f: Option<WindowId>) -> Map<u32, Window> {
    match f {
        Some(fid) => if m.contains_key(fid.0) {
            m.insert(fid.0, Window { focused: false, ..m[fid.0] })
        } else {
            m
        },
        None => m,
    }
}

/// `s` with the element at some index holding `id` moved to the end.
pub open spec fn moved_to_end(old_s: Seq<WindowId>, new_s: Seq<WindowId>, id: WindowId) -> bool {
    exists|i: int| 0 <= i < old_s.len() && old_s[i] == id && new_s == old_s.remove(i).push(id)
}

proof fn lemma_ids_push(s: Seq<WindowId>, id: WindowId)
    requires
        stack_ids(s).no_duplicates(),
        !stack_ids(s).contains(id.0),
    ensures
        stack_ids(s.push(id)) == stack_ids(s).push(id.0),
        stack_ids(s.push(id)).no_duplicates(),
        stack_ids(s.push(id)).to_set() == stack_ids(s).to_set().insert(id.0),
{
    assert(stack_ids(s.push(id)) =~= stack_ids(s).push(id.0));
    let t = stack_ids(s).push(id.0);
    assert forall|a: int, b: int| 0 <= a < b < t.len() implies t[a] != t[b] by {
        if b == t.len() - 1 {
            assert(stack_ids(s)[a] == t[a]);
        }
    }
    assert forall|k: u32| t.to_set().contains(k) <==> stack_ids(s).to_set().insert(id.0).contains(k) by {
        if t.contains(k) {
            let j = choose|j: int| 0 <= j < t.len() && t[j] == k;
            if j < t.len() - 1 {
                assert(stack_ids(s)[j] == k);
            }
        }
        if stack_ids(s).contains(k) {
            let j = choose|j: int| 0 <= j < stack_ids(s).len() && stack_ids(s)[j] == k;
            assert(t[j] == k);
        }
        if k == id.0 {
            assert(t[t.len() - 1] == k);
        }
    }
    assert(t.to_set() =~= stack_ids(s).to_set().insert(id.0));
}

proof fn lemma_ids_remove(s: Seq<WindowId>, i: int)
    requires
        stack_ids(s).no_duplicates(),
        0 <= i < s.len(),
    ensures
        stack_ids(s.remove(i)) == stack_ids(s).remove(i),
        stack_ids(s.remove(i)).no_duplicates(),
        stack_ids(s.remove(i)).to_set() == stack_ids(s).to_set().remove(s[i].0),
{
    let t = stack_ids(s.remove(i));
    let u = stack_ids(s);
    assert(t =~= u.remove(i));
    assert(u[i] == s[i].0);
    assert forall|a: int, b: int| 0 <= a < b < t.len() implies t[a] != t[b] by {
        let a2 = if a < i { a } else { a + 1 };
        let b2 = if b < i { b } else { b + 1 };
        assert(t[a] == u[a2]);
        assert(t[b] == u[b2]);
    }
    assert forall|k: u32| t.to_set().contains(k) <==> u.to_set().remove(s[i].0).contains(k) by {
        if t.contains(k) {
            let j = choose|j: int| 0 <= j < t.len() && t[j] == k;
            let j2 = if j < i { j } else { j + 1 };
            assert(u[j2] == k);
            assert(j2 != i);
        }
        if u.contains(k) && k != s[i].0 {
            let j = choose|j: int| 0 <= j < u.len() && u[j] == k;
            assert(j != i);
            if j < i {
                assert(t[j] == k);
            } else {
                assert(t[j - 1] == k);
            }
        }
    }
    assert(t.to_set() =~= u.to_set().remove(s[i].0));
}

/// The index of `id` in `s`, or the length of `s` when it is absent.
fn position_of(s: &Vec<WindowId>, id: WindowId) -> (i: usize)
    ensures
        i <= s@.len(),
        i < s@.len() ==> s@[i as int] == id,
        forall|j: int| 0 <= j < i ==> s@[j] != id,
{
    let mut i: usize = 0;
    let n = s.len();
    while i < n && s[i] != id
        invariant
            n == s@.len(),
            i <= n,
            forall|j: int| 0 <= j < i ==> s@[j] != id,
        decreases n - i,
    {
        i += 1;
    }
    i
}

/// Move `id`, which `s` holds once, to the end of `s`.
fn move_to_end(s: &mut Vec<WindowId>, id: WindowId)
    requires
        stack_ids(old(s)@).no_duplicates(),
        stack_ids(old(s)@).contains(id.0),
    ensures
        moved_to_end(old(s)@, final(s)@, id),
        stack_ids(final(s)@).no_duplicates(),
        stack_ids(final(s)@).to_set() == stack_ids(old(s)@).to_set(),
{
    let i = position_of(s, id);
    let n = s.len();
    let ghost before = s@;
    if i < n {
        s.remove(i);
        proof {
            lemma_ids_remove(before, i as int);
            assert(before[i as int] == id);
            assert(!stack_ids(before.remove(i as int)).to_set().contains(id.0));
            assert(!stack_ids(before.remove(i as int)).contains(id.0));
            lemma_ids_push(before.remove(i as int), id);
        }
        s.push(id);
        proof {
            assert(stack_ids(before)[i as int] == id.0);
            assert(stack_ids(s@).to_set() =~= stack_ids(before).to_set());
        }
    } else {
        proof {
            let j = choose|j: int| 0 <= j < stack_ids(before).len() && stack_ids(before)[j] == id.0;
            assert(before[j] == id);
            assert(false);
        }
    }
}

/// Which windows a listing keeps.
#[derive(Clone, Copy)]
enum Filter {
    All,
    Shown,
    AtPoint(i32, i32),
}

/// How a listing orders its windows.
#[derive(Clone, Copy, PartialEq, Eq, Structural)]
enum Order {
    Any,
    Ascending,
    Descending,
}

spec fn keeps(f: Filter, w: Window) -> bool {
    match f {
        Filter::All => true,
        Filter::Shown => shown(w),
        Filter::AtPoint(px, py) => w.visible && w.spec_contains(px as int, py as int),
    }
}

spec fn ordered(r: Seq<&Window>, o: Order) -> bool {
    match o {
        Order::Any => true,
        Order::Ascending => sorted_by_z(r, false),
        Order::Descending => sorted_by_z(r, true),
    }
}

/// Whether a window with z-index `here` stays before one with `new` in a
/// stable sort, ascending or descending.
fn goes_before(here: u32, new: u32, ascending: bool) -> (b: bool)
    ensures
        b == if ascending {
            here <= new
        } else {
            here >= new
        },
{
    if ascending {
        here <= new
    } else {
        here >= new
    }
}

/// Tracks every window, the focus, the focus order and the z-order.
pub struct WindowManager {
    windows: HashMap<u32, Window>,
    next_id: u32,
    focused_window: Option<WindowId>,
    active_stack: Vec<WindowId>,
    z_index_counter: u32,
    awaiting_close: Vec<WindowId>,
}

impl WindowManager {
    /// The windows, by id.
    pub closed spec fn windows_view(&self) -> Map<u32, Window> {
        self.windows@
    }

    /// The windows in focus order, most recently focused last.
    pub closed spec fn stack_view(&self) -> Seq<WindowId> {
        self.active_stack@
    }

    pub closed spec fn focused_view(&self) -> Option<WindowId> {
        self.focused_window
    }

    /// The id the next window gets.
    pub closed spec fn next_id_view(&self) -> u32 {
        self.next_id
    }

    /// The z-index the next raised window gets.
    pub closed spec fn z_counter(&self) -> u32 {
        self.z_index_counter
    }

    /// Windows asked to close, in the order asked.
    pub closed spec fn closing_view(&self) -> Seq<WindowId> {
        self.awaiting_close@
    }

    /// Every window is in the focus order exactly once and is stored under
    /// its own id, which is below the next id.
    pub open spec fn wf(&self) -> bool {
        &&& stack_ids(self.stack_view()).no_duplicates()
        &&& stack_ids(self.stack_view()).to_set() == self.windows_view().dom()
        &&& forall|k: u32| #[trigger]
            self.windows_view().contains_key(k) ==> self.windows_view()[k].id.0 == k && k
                < self.next_id_view()
        &&& self.next_id_view() >= 1
        &&& forall|k: u32| #[trigger]
            self.windows_view().contains_key(k) ==> self.windows_view()[k].z_index
                < self.z_counter()
    }

    pub fn new() -> (wm: Self)
        ensures
            wm.wf(),
            wm.windows_view() == Map::<u32, Window>::empty(),
            wm.stack_view() == Seq::<WindowId>::empty(),
            wm.focused_view() is None,
            wm.next_id_view() == 1,
            wm.z_counter() == 0,
            wm.closing_view() == Seq::<WindowId>::empty(),
    {
        let wm = WindowManager {
            windows: HashMap::new(),
            next_id: 1,
            focused_window: None,
            active_stack: Vec::new(),
            z_index_counter: 0,
            awaiting_close: Vec::new(),
        };
        assert(stack_ids(wm.active_stack@).to_set() =~= Set::<u32>::empty());
        wm
    }

    proof fn lemma_stack_contains(&self, k: u32)
        requires
            self.wf(),
        ensures
            self.windows_view().contains_key(k) <==> stack_ids(self.stack_view()).contains(k),
    {
        assert(stack_ids(self.stack_view()).to_set().contains(k) <==> stack_ids(
            self.stack_view(),
        ).contains(k));
    }

    /// Take the window `k` out of the map (to change it and put it back).
    fn take_window(&mut self, k: u32) -> (w: Window)
        requires
            old(self).windows_view().contains_key(k),
        ensures
            w == old(self).windows_view()[k],
            final(self).windows_view() == old(self).windows_view().remove(k),
            final(self).stack_view() == old(self).stack_view(),
            final(self).focused_view() == old(self).focused_view(),
            final(self).next_id_view() == old(self).next_id_view(),
            final(self).z_counter() == old(self).z_counter(),
            final(self).closing_view() == old(self).closing_view(),
    {
        match self.windows.remove(&k) {
            Some(w) => w,
            None => {
                assert(false);
                Window::new(WindowId(k), String::new(), String::new())
            },
        }
    }

    /// Create and focus a new window; it gets the next id and goes on top.
    pub fn create_window(&mut self, title: String, app_id: String) -> (id: WindowId)
        requires
            old(self).wf(),
            old(self).next_id_view() < u32::MAX,
            old(self).z_counter() < u32::MAX - 1,
        ensures
            final(self).wf(),
            id.0 == old(self).next_id_view(),
            !old(self).windows_view().contains_key(id.0),
            final(self).next_id_view() == old(self).next_id_view() + 1,
            final(self).z_counter() == old(self).z_counter() + 2,
            final(self).focused_view() == Some(id),
            final(self).stack_view() == old(self).stack_view().push(id),
            final(self).closing_view() == old(self).closing_view(),
            final(self).windows_view().dom() == old(self).windows_view().dom().insert(id.0),
            forall|k: u32|
                k != id.0 && #[trigger] old(self).windows_view().contains_key(k) ==> final(self).windows_view()[k] == unfocus(old(self).windows_view(), old(self).focused_view())[k],
            ({
                let w = final(self).windows_view()[id.0];
                &&& w.is_fresh(id, title@, app_id@)
                &&& w.focused
                &&& w.z_index == old(self).z_counter() + 1
                &&& w.focused_at is Some
            }),
    {
        let id = WindowId(self.next_id);
        self.next_id = self.next_id + 1;
        let mut window = Window::new(id, title, app_id);
        window.z_index = self.z_index_counter;
        self.z_index_counter = self.z_index_counter + 1;
        proof {
            self.lemma_stack_contains(id.0);
        }
        self.windows.insert(id.0, window);
        let ghost before_push = self.active_stack@;
        self.active_stack.push(id);
        proof {
            lemma_ids_push(before_push, id);
            assert(stack_ids(self.active_stack@).to_set() =~= self.windows@.dom());
        }
        let ghost mid = *self;
        self.focus_window(id);
        proof {
            let i = before_push.len() as int;
            assert(mid.active_stack@[i] == id);
            let j = choose|j: int|
                0 <= j < mid.active_stack@.len() && mid.active_stack@[j] == id
                    && self.active_stack@ == mid.active_stack@.remove(j).push(id);
            assert(stack_ids(mid.active_stack@)[j] == id.0);
            assert(stack_ids(mid.active_stack@)[i] == id.0);
            assert(j == i);
            assert(mid.active_stack@.remove(i) =~= before_push);
            assert forall|k: u32|
                k != id.0 && #[trigger] old(self).windows@.contains_key(k) implies self.windows@[k]
                == unfocus(old(self).windows@, old(self).focused_window)[k] by {
                assert(unfocus(mid.windows@, mid.focused_window).contains_key(k));
            }
        }
        id
    }

    /// Ask a window to close: it is marked closing and queued for
    /// confirmation; unknown ids are ignored.
    pub fn destroy_window(&mut self, id: WindowId)
        requires
            old(self).wf(),
        ensures
            final(self).wf(),
            final(self).stack_view() == old(self).stack_view(),
            final(self).focused_view() == old(self).focused_view(),
            final(self).next_id_view() == old(self).next_id_view(),
            final(self).z_counter() == old(self).z_counter(),
            old(self).windows_view().contains_key(id.0) ==> final(self).windows_view()
                == old(self).windows_view().insert(
                id.0,
                Window { state: WindowState::Closing, ..old(self).windows_view()[id.0] },
            ) && final(self).closing_view() == old(self).closing_view().push(id),
            !old(self).windows_view().contains_key(id.0) ==> final(self).windows_view()
                == old(self).windows_view() && final(self).closing_view()
                == old(self).closing_view(),
    {
        if self.windows.contains_key(&id.0) {
            let mut w = self.take_window(id.0);
            w.state = WindowState::Closing;
            self.windows.insert(id.0, w);
            self.awaiting_close.push(id);
            assert(self.windows@.dom() =~= old(self).windows@.dom());
        }
    }

    /// Forget a window for good; when it had the focus, the focus passes to
    /// the most recently focused remaining window.
    pub fn confirm_destroy(&mut self, id: WindowId)
        requires
            old(self).wf(),
        ensures
            final(self).wf(),
            final(self).windows_view() == old(self).windows_view().remove(id.0),
            old(self).windows_view().contains_key(id.0) ==> exists|i: int|
                0 <= i < old(self).stack_view().len() && old(self).stack_view()[i] == id && final(self).stack_view() == old(self).stack_view().remove(i),
            !old(self).windows_view().contains_key(id.0) ==> final(self).stack_view()
                == old(self).stack_view(),
            old(self).focused_view() == Some(id) ==> final(self).focused_view() == if final(self).stack_view().len() == 0 {
                None
            } else {
                Some(final(self).stack_view().last())
            },
            old(self).focused_view() != Some(id) ==> final(self).focused_view() == old(self).focused_view(),
            final(self).next_id_view() == old(self).next_id_view(),
            final(self).z_counter() == old(self).z_counter(),
            final(self).closing_view() == old(self).closing_view(),
    {
        proof {
            self.lemma_stack_contains(id.0);
        }
        self.windows.remove(&id.0);
        let i = position_of(&self.active_stack, id);
        let n = self.active_stack.len();
        let ghost before = self.active_stack@;
        if i < n {
            proof {
                assert(stack_ids(before)[i as int] == id.0);
                assert(stack_ids(before).to_set().contains(id.0));
            }
            self.active_stack.remove(i);
            proof {
                lemma_ids_remove(before, i as int);
                assert(stack_ids(self.active_stack@).to_set() =~= self.windows@.dom());
            }
        } else {
            proof {
                assert(!stack_ids(before).contains(id.0)) by {
                    if stack_ids(before).contains(id.0) {
                        let j = choose|j: int| 0 <= j < stack_ids(before).len() && stack_ids(before)[j] == id.0;
                        assert(before[j] == id);
                    }
                }
                assert(self.windows@ =~= old(self).windows@);
            }
        }
        if self.focused_window == Some(id) {
            let len = self.active_stack.len();
            self.focused_window = if len == 0 {
                None
            } else {
                Some(self.active_stack[len - 1])
            };
        }
    }

    /// The window with id `id`, if any.
    pub fn get_window(&self, id: WindowId) -> (r: Option<&Window>)
        ensures
            match r {
                Some(w) => self.windows_view().contains_key(id.0) && *w == self.windows_view()[id.0],
                None => !self.windows_view().contains_key(id.0),
            },
    {
        self.windows.get(&id.0)
    }

    /// The window `id`, if any, to change in place. Everything else stays;
    /// the manager stays well formed as long as the window keeps its id and
    /// a z-index below the counter.
    pub fn get_window_mut(&mut self, id: WindowId) -> (r: Option<&mut Window>)
        ensures
            match r {
                Some(w) => old(self).windows_view().contains_key(id.0) && *w == old(self).windows_view()[id.0]
                    && final(self).windows_view() == old(self).windows_view().insert(id.0, *final(w)),
                None => !old(self).windows_view().contains_key(id.0) && final(self).windows_view()
                    == old(self).windows_view(),
            },
            final(self).stack_view() == old(self).stack_view(),
            final(self).focused_view() == old(self).focused_view(),
            final(self).next_id_view() == old(self).next_id_view(),
            final(self).z_counter() == old(self).z_counter(),
            final(self).closing_view() == old(self).closing_view(),
    {
        window_entry(&mut self.windows, id.0)
    }

    /// Focus `id`: the previously focused window loses focus; the focus is
    /// recorded even for an unknown id. A known window is activated, gets a
    /// fresh z-index on top and moves to the end of the focus order.
    pub fn focus_window(&mut self, id: WindowId)
        requires
            old(self).wf(),
            old(self).windows_view().contains_key(id.0) ==> old(self).z_counter() < u32::MAX,
        ensures
            final(self).wf(),
            final(self).focused_view() == Some(id),
            final(self).next_id_view() == old(self).next_id_view(),
            final(self).closing_view() == old(self).closing_view(),
            ({
                let m1 = unfocus(old(self).windows_view(), old(self).focused_view());
                if m1.contains_key(id.0) {
                    let w = final(self).windows_view()[id.0];
                    &&& w.focused_at is Some
                    &&& final(self).windows_view() == m1.insert(
                        id.0,
                        Window {
                            state: WindowState::Normal,
                            focused: true,
                            urgent: false,
                            focused_at: w.focused_at,
                            z_index: old(self).z_counter(),
                            ..m1[id.0]
                        },
                    )
                    &&& final(self).z_counter() == old(self).z_counter() + 1
                    &&& moved_to_end(old(self).stack_view(), final(self).stack_view(), id)
                    &&& forall|k: u32| #[trigger]
                        final(self).windows_view().contains_key(k) && k != id.0 ==> final(self).windows_view()[k].z_index < w.z_index
                } else {
                    &&& final(self).windows_view() == m1
                    &&& final(self).z_counter() == old(self).z_counter()
                    &&& final(self).stack_view() == old(self).stack_view()
                }
            }),
    {
        if let Some(focused) = self.focused_window {
            if self.windows.contains_key(&focused.0) {
                let mut w = self.take_window(focused.0);
                w.focused = false;
                self.windows.insert(focused.0, w);
                assert(self.windows@.dom() =~= old(self).windows@.dom());
            }
        }
        self.focused_window = Some(id);
        let ghost m1 = self.windows@;
        assert(m1 == unfocus(old(self).windows@, old(self).focused_window));
        if self.windows.contains_key(&id.0) {
            let mut w = self.take_window(id.0);
            w.focused = true;
            w.activate();
            w.z_index = self.z_index_counter;
            self.z_index_counter = self.z_index_counter + 1;
            self.windows.insert(id.0, w);
            assert(self.windows@.dom() =~= old(self).windows@.dom());
            proof {
                self.lemma_stack_contains(id.0);
            }
            move_to_end(&mut self.active_stack, id);
        }
    }

    pub fn get_focused_window(&self) -> (r: Option<WindowId>)
        ensures
            r == self.focused_view(),
    {
        self.focused_window
    }

    /// Give a known window a fresh z-index on top of all others.
    pub fn raise_window(&mut self, id: WindowId)
        requires
            old(self).wf(),
            old(self).windows_view().contains_key(id.0) ==> old(self).z_counter() < u32::MAX,
        ensures
            final(self).wf(),
            final(self).stack_view() == old(self).stack_view(),
            final(self).focused_view() == old(self).focused_view(),
            final(self).next_id_view() == old(self).next_id_view(),
            final(self).closing_view() == old(self).closing_view(),
            old(self).windows_view().contains_key(id.0) ==> final(self).windows_view()
                == old(self).windows_view().insert(
                id.0,
                Window { z_index: old(self).z_counter(), ..old(self).windows_view()[id.0] },
            ) && final(self).z_counter() == old(self).z_counter() + 1,
            !old(self).windows_view().contains_key(id.0) ==> final(self).windows_view()
                == old(self).windows_view() && final(self).z_counter() == old(self).z_counter(),
    {
        if self.windows.contains_key(&id.0) {
            let mut w = self.take_window(id.0);
            w.z_index = self.z_index_counter;
            self.z_index_counter = self.z_index_counter + 1;
            self.windows.insert(id.0, w);
            assert(self.windows@.dom() =~= old(self).windows@.dom());
        }
    }

    /// Move a known window to `(x, y)`.
    pub fn move_window(&mut self, id: WindowId, x: i32, y: i32)
        requires
            old(self).wf(),
        ensures
            final(self).wf(),
            final(self).stack_view() == old(self).stack_view(),
            final(self).focused_view() == old(self).focused_view(),
            final(self).next_id_view() == old(self).next_id_view(),
            final(self).z_counter() == old(self).z_counter(),
            final(self).closing_view() == old(self).closing_view(),
            old(self).windows_view().contains_key(id.0) ==> final(self).windows_view()
                == old(self).windows_view().insert(
                id.0,
                Window { x, y, ..old(self).windows_view()[id.0] },
            ),
            !old(self).windows_view().contains_key(id.0) ==> final(self).windows_view()
                == old(self).windows_view(),
    {
        if self.windows.contains_key(&id.0) {
            let mut w = self.take_window(id.0);
            w.set_position(x, y);
            self.windows.insert(id.0, w);
            assert(self.windows@.dom() =~= old(self).windows@.dom());
        }
    }

    /// Resize a known window within its size limits.
    pub fn resize_window(&mut self, id: WindowId, width: u32, height: u32)
        requires
            old(self).wf(),
        ensures
            final(self).wf(),
            final(self).stack_view() == old(self).stack_view(),
            final(self).focused_view() == old(self).focused_view(),
            final(self).next_id_view() == old(self).next_id_view(),
            final(self).z_counter() == old(self).z_counter(),
            final(self).closing_view() == old(self).closing_view(),
            old(self).windows_view().contains_key(id.0) ==> ({
                let w = old(self).windows_view()[id.0];
                final(self).windows_view() == old(self).windows_view().insert(
                    id.0,
                    Window {
                        width: clamp_dim(width, w.min_width, w.max_width),
                        height: clamp_dim(height, w.min_height, w.max_height),
                        ..w
                    },
                )
            }),
            !old(self).windows_view().contains_key(id.0) ==> final(self).windows_view()
                == old(self).windows_view(),
    {
        if self.windows.contains_key(&id.0) {
            let mut w = self.take_window(id.0);
            w.set_size(width, height);
            self.windows.insert(id.0, w);
            assert(self.windows@.dom() =~= old(self).windows@.dom());
        }
    }

    /// The windows `f` keeps, each once, ordered as `o` asks.
    fn windows_where(&self, f: Filter, o: Order) -> (r: Vec<&Window>)
        requires
            self.wf(),
            f matches Filter::AtPoint(px, py) ==> forall|k: u32| #[trigger]
                self.windows_view().contains_key(k) && self.windows_view()[k].visible
                    ==> self.windows_view()[k].point_test_fits(px as int, py as int),
        ensures
            lists_exactly(r@, self.windows_view(), |w: Window| keeps(f, w)),
            ordered(r@, o),
    {
        let keys = keys_of(&self.windows);
        let mut r: Vec<&Window> = Vec::new();
        let mut idx: usize = 0;
        while idx < keys.len()
            invariant
                self.wf(),
                f matches Filter::AtPoint(px, py) ==> forall|k: u32| #[trigger]
                    self.windows_view().contains_key(k) && self.windows_view()[k].visible
                        ==> self.windows_view()[k].point_test_fits(px as int, py as int),
                keys@.to_set() == self.windows@.dom(),
                keys@.no_duplicates(),
                idx <= keys@.len(),
                forall|i: int|
                    0 <= i < r@.len() ==> self.windows@.contains_key(#[trigger] r@[i].id.0)
                        && self.windows@[r@[i].id.0] == *r@[i] && keeps(f, *r@[i]),
                forall|j: int|
                    0 <= j < idx && keeps(f, self.windows@[keys@[j]]) ==> #[trigger] ids_of(
                        r@,
                    ).contains(keys@[j]),
                forall|i: int|
                    0 <= i < r@.len() ==> #[trigger] keys@.subrange(0, idx as int).contains(
                        r@[i].id.0,
                    ),
                ids_of(r@).no_duplicates(),
                ordered(r@, o),
            decreases keys@.len() - idx,
        {
            let k = keys[idx];
            assert(keys@.to_set().contains(k));
            let w = self.windows.get(&k).unwrap();
            let pass = match f {
                Filter::All => true,
                Filter::Shown => w.visible && w.state != WindowState::Minimized,
                Filter::AtPoint(px, py) => {
                    assert(self.windows@.contains_key(k));
                    w.visible && w.contains_point(px, py)
                },
            };
            let ghost before = r@;
            if pass {
                let n = r.len();
                let mut pos: usize = n;
                if o != Order::Any {
                    pos = 0;
                    while pos < n && goes_before(r[pos].z_index, w.z_index, o == Order::Ascending)
                        invariant
                            n == r@.len(),
                            pos <= n,
                            o != Order::Any,
                            forall|i: int|
                                0 <= i < pos ==> if o == Order::Ascending {
                                    r@[i].z_index <= w.z_index
                                } else {
                                    r@[i].z_index >= w.z_index
                                },
                        decreases n - pos,
                    {
                        pos += 1;
                    }
                }
                r.insert(pos, w);
                proof {
                    assert(!ids_of(before).contains(k)) by {
                        if ids_of(before).contains(k) {
                            let i = choose|i: int| 0 <= i < ids_of(before).len() && ids_of(before)[i] == k;
                            assert(keys@.subrange(0, idx as int).contains(before[i].id.0));
                            let j = choose|j: int| 0 <= j < idx && keys@.subrange(0, idx as int)[j] == k;
                            assert(keys@[j] == keys@[idx as int]);
                        }
                    }
                    assert(ids_of(r@) =~= ids_of(before).insert(pos as int, k));
                    assert forall|a: int, b: int| 0 <= a < b < r@.len() implies ids_of(r@)[a]
                        != ids_of(r@)[b] by {
                        let a2 = if a < pos { a } else { a - 1 };
                        let b2 = if b < pos { b } else { b - 1 };
                        if a != pos && b != pos {
                            assert(ids_of(before)[a2] != ids_of(before)[b2]);
                        } else if a == pos {
                            assert(ids_of(before)[b2] != k);
                        } else {
                            assert(ids_of(before)[a2] != k);
                        }
                    }
                    assert forall|i: int| 0 <= i < r@.len() implies #[trigger] keys@.subrange(
                        0,
                        idx + 1,
                    ).contains(r@[i].id.0) by {
                        if i == pos {
                            assert(keys@.subrange(0, idx + 1)[idx as int] == k);
                        } else {
                            let i2 = if i < pos { i } else { i - 1 };
                            assert(r@[i] == before[i2]);
                            assert(keys@.subrange(0, idx as int).contains(before[i2].id.0));
                            let j = choose|j: int| 0 <= j < idx && keys@.subrange(0, idx as int)[j] == before[i2].id.0;
                            assert(keys@.subrange(0, idx + 1)[j] == before[i2].id.0);
                        }
                    }
                    assert forall|j: int|
                        0 <= j < idx + 1 && keeps(f, self.windows@[keys@[j]]) implies #[trigger] ids_of(
                        r@,
                    ).contains(keys@[j]) by {
                        if j == idx {
                            assert(ids_of(r@)[pos as int] == k);
                        } else {
                            assert(ids_of(before).contains(keys@[j]));
                            let i = choose|i: int| 0 <= i < ids_of(before).len() && ids_of(before)[i] == keys@[j];
                            let i2 = if i < pos { i } else { i + 1 };
                            assert(ids_of(r@)[i2] == keys@[j]);
                        }
                    }
                    if o != Order::Any {
                        assert forall|a: int, b: int| 0 <= a < b < r@.len() implies (if o
                            == Order::Ascending {
                            r@[a].z_index <= r@[b].z_index
                        } else {
                            r@[a].z_index >= r@[b].z_index
                        }) by {
                            let a2 = if a < pos { a } else { a - 1 };
                            let b2 = if b < pos { b } else { b - 1 };
                            if a != pos && b != pos {
                            } else if a == pos {
                                if pos < n {
                                    assert(!(if o == Order::Ascending {
                                        before[pos as int].z_index <= w.z_index
                                    } else {
                                        before[pos as int].z_index >= w.z_index
                                    }));
                                }
                            }
                        }
                    }
                }
            } else {
                proof {
                    assert forall|i: int| 0 <= i < r@.len() implies #[trigger] keys@.subrange(
                        0,
                        idx + 1,
                    ).contains(r@[i].id.0) by {
                        assert(keys@.subrange(0, idx as int).contains(r@[i].id.0));
                        let j = choose|j: int| 0 <= j < idx && keys@.subrange(0, idx as int)[j] == r@[i].id.0;
                        assert(keys@.subrange(0, idx + 1)[j] == r@[i].id.0);
                    }
                }
            }
            idx += 1;
        }
        proof {
            assert forall|k: u32|
                self.windows@.contains_key(k) && keeps(f, self.windows@[k]) implies #[trigger] ids_of(
                r@,
            ).contains(k) by {
                assert(keys@.to_set().contains(k));
                let j = choose|j: int| 0 <= j < keys@.len() && keys@[j] == k;
            }
        }
        r
    }

    /// Every window, each once, in no particular order.
    pub fn get_all_windows(&self) -> (r: Vec<&Window>)
        requires
            self.wf(),
        ensures
            lists_exactly(r@, self.windows_view(), |w: Window| true),
    {
        let r = self.windows_where(Filter::All, Order::Any);
        assert forall|k: u32| self.windows_view().contains_key(k) implies #[trigger] ids_of(r@).contains(k) by {
            assert(keeps(Filter::All, self.windows_view()[k]));
        }
        r
    }

    /// The visible, not minimized windows, each once, in no particular order.
    pub fn get_visible_windows(&self) -> (r: Vec<&Window>)
        requires
            self.wf(),
        ensures
            lists_exactly(r@, self.windows_view(), |w: Window| shown(w)),
    {
        let r = self.windows_where(Filter::Shown, Order::Any);
        assert forall|k: u32| self.windows_view().contains_key(k) && shown(self.windows_view()[k]) implies #[trigger] ids_of(r@).contains(k) by {
            assert(keeps(Filter::Shown, self.windows_view()[k]));
        }
        r
    }

    /// The visible, not minimized windows bottom to top: by increasing z-index.
    pub fn get_stacked_windows(&self) -> (r: Vec<&Window>)
        requires
            self.wf(),
        ensures
            lists_exactly(r@, self.windows_view(), |w: Window| shown(w)),
            sorted_by_z(r@, false),
    {
        let r = self.windows_where(Filter::Shown, Order::Ascending);
        assert forall|k: u32| self.windows_view().contains_key(k) && shown(self.windows_view()[k]) implies #[trigger] ids_of(r@).contains(k) by {
            assert(keeps(Filter::Shown, self.windows_view()[k]));
        }
        r
    }

    /// The topmost shown window: none exactly when no window is shown.
    pub fn get_top_window(&self) -> (r: Option<&Window>)
        requires
            self.wf(),
        ensures
            r is None <==> !exists|k: u32| #[trigger]
                self.windows_view().contains_key(k) && shown(self.windows_view()[k]),
            r matches Some(w) ==> self.windows_view().contains_key(w.id.0)
                && self.windows_view()[w.id.0] == *w && shown(*w) && forall|k: u32| #[trigger]
                self.windows_view().contains_key(k) && shown(self.windows_view()[k])
                    ==> self.windows_view()[k].z_index <= w.z_index,
    {
        let s = self.get_stacked_windows();
        let n = s.len();
        if n == 0 {
            assert forall|k: u32| #[trigger] self.windows_view().contains_key(k) implies !shown(self.windows_view()[k]) by {
                if shown(self.windows_view()[k]) {
                    assert(ids_of(s@).contains(k));
                }
            }
            None
        } else {
            let w = s[n - 1];
            proof {
                assert(self.windows_view().contains_key(s@[n - 1].id.0));
                assert forall|k: u32| #[trigger]
                    self.windows_view().contains_key(k) && shown(self.windows_view()[k]) implies self.windows_view()[k].z_index <= w.z_index by {
                    assert(ids_of(s@).contains(k));
                    let i = choose|i: int| 0 <= i < ids_of(s@).len() && ids_of(s@)[i] == k;
                    assert(self.windows_view().contains_key(s@[i].id.0));
                    if i < n - 1 {
                        assert(s@[i].z_index <= s@[n - 1].z_index);
                    }
                }
            }
            Some(w)
        }
    }

    /// Whether some window is visible and not minimized.
    pub fn has_visible_windows(&self) -> (b: bool)
        requires
            self.wf(),
        ensures
            b == exists|k: u32| #[trigger]
                self.windows_view().contains_key(k) && shown(self.windows_view()[k]),
    {
        let v = self.get_visible_windows();
        if v.len() == 0 {
            assert forall|k: u32| #[trigger] self.windows_view().contains_key(k) implies !shown(self.windows_view()[k]) by {
                if shown(self.windows_view()[k]) {
                    assert(ids_of(v@).contains(k));
                }
            }
            false
        } else {
            assert(self.windows_view().contains_key(v@[0].id.0));
            true
        }
    }

    /// The visible windows containing `(x, y)`, topmost first.
    pub fn get_windows_at_point(&self, x: i32, y: i32) -> (r: Vec<WindowId>)
        requires
            self.wf(),
            forall|k: u32| #[trigger]
                self.windows_view().contains_key(k) && self.windows_view()[k].visible
                    ==> self.windows_view()[k].point_test_fits(x as int, y as int),
        ensures
            forall|i: int|
                0 <= i < r@.len() ==> self.windows_view().contains_key(#[trigger] r@[i].0)
                    && self.windows_view()[r@[i].0].visible && self.windows_view()[r@[i].0].spec_contains(
                    x as int,
                    y as int,
                ),
            forall|k: u32|
                self.windows_view().contains_key(k) && self.windows_view()[k].visible
                    && self.windows_view()[k].spec_contains(x as int, y as int) ==> #[trigger] stack_ids(
                    r@,
                ).contains(k),
            stack_ids(r@).no_duplicates(),
            forall|i: int, j: int|
                0 <= i < j < r@.len() ==> self.windows_view()[r@[i].0].z_index
                    >= self.windows_view()[r@[j].0].z_index,
    {
        let found = self.windows_where(Filter::AtPoint(x, y), Order::Descending);
        let mut r: Vec<WindowId> = Vec::new();
        let mut i: usize = 0;
        while i < found.len()
            invariant
                i <= found@.len(),
                r@.len() == i,
                forall|j: int| 0 <= j < i ==> #[trigger] r@[j] == found@[j].id,
            decreases found@.len() - i,
        {
            r.push(found[i].id);
            i += 1;
        }
        proof {
            assert(stack_ids(r@) =~= ids_of(found@));
            assert forall|k: u32|
                self.windows_view().contains_key(k) && self.windows_view()[k].visible
                    && self.windows_view()[k].spec_contains(x as int, y as int) implies #[trigger] stack_ids(
                    r@,
                ).contains(k) by {
                assert(keeps(Filter::AtPoint(x, y), self.windows_view()[k]));
                assert(ids_of(found@).contains(k));
            }
            assert forall|i: int| 0 <= i < r@.len() implies self.windows_view().contains_key(#[trigger] r@[i].0)
                && self.windows_view()[r@[i].0].visible && self.windows_view()[r@[i].0].spec_contains(
                x as int,
                y as int,
            ) by {
                assert(self.windows_view().contains_key(found@[i].id.0));
            }
            assert forall|i: int, j: int| 0 <= i < j < r@.len() implies self.windows_view()[r@[i].0].z_index
                >= self.windows_view()[r@[j].0].z_index by {
                assert(self.windows_view().contains_key(found@[i].id.0));
                assert(self.windows_view().contains_key(found@[j].id.0));
            }
        }
        r
    }

    pub fn window_count(&self) -> (n: usize)
        ensures
            n == self.windows_view().len(),
    {
        self.windows.len()
    }

    /// The windows asked to close, in the order asked.
    pub fn get_closing_windows(&self) -> (r: Vec<WindowId>)
        ensures
            r@ == self.closing_view(),
    {
        let mut r: Vec<WindowId> = Vec::new();
        let mut i: usize = 0;
        while i < self.awaiting_close.len()
            invariant
                i <= self.awaiting_close@.len(),
                r@ == self.awaiting_close@.subrange(0, i as int),
            decreases self.awaiting_close@.len() - i,
        {
            r.push(self.awaiting_close[i]);
            i += 1;
        }
        r
    }
}

impl Default for WindowManager {
    fn default() -> (wm: Self)
        ensures
            wm.wf(),
            wm.windows_view() == Map::<u32, Window>::empty(),
            wm.stack_view() == Seq::<WindowId>::empty(),
            wm.focused_view() is None,
            wm.next_id_view() == 1,
            wm.z_counter() == 0,
            wm.closing_view() == Seq::<WindowId>::empty(),
    {
        Self::new()
    }
}

} // verus!
