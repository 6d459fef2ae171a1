//! Input devices, input events and the handler that tracks modifiers, the
//! pointer position and mouse buttons. Floating-point coordinates are held
//! as the bit patterns of their `f64` values.

use vstd::prelude::*;
use std::collections::{HashMap, VecDeque};
use crate::compositor::window::WindowId;

verus! {

broadcast use vstd::std_specs::hash::group_hash_axioms;

#[derive(Debug, Clone, Copy, PartialEq, Eq, Hash, Structural)]
pub struct InputDeviceId(pub u32);

impl InputDeviceId {
    pub fn new(id: u32) -> (r: Self)
        ensures
            r.0 == id,
    {
        InputDeviceId(id)
    }
}

#[derive(Debug, Clone, Copy, PartialEq, Eq, Structural)]
pub enum InputDeviceType {
    Keyboard,
    Mouse,
    Touchpad,
    Touchscreen,
    Tablet,
}

#[derive(Debug, Clone, Copy, PartialEq, Eq, Structural)]
pub enum KeyState {
    Pressed,
    Released,
}

#[derive(Debug, Clone, Copy, PartialEq, Eq, Structural)]
pub enum ButtonState {
    Pressed,
    Released,
}

#[derive(Debug, Clone, Copy, PartialEq, Eq, Structural)]
pub enum Axis {
    Horizontal,
    Vertical,
}

#[derive(Debug, Clone, Copy, PartialEq, Eq, Structural)]
pub struct ModifiersState {
    pub ctrl: bool,
    pub alt: bool,
    pub shift: bool,
    pub logo: bool,
    pub caps_lock: bool,
    pub num_lock: bool,
    pub scroll_lock: bool,
}

/// No modifier active.
pub open spec fn no_modifiers() -> ModifiersState {
    ModifiersState {
        ctrl: false,
        alt: false,
        shift: false,
        logo: false,
        caps_lock: false,
        num_lock: false,
        scroll_lock: false,
    }
}

impl Default for ModifiersState {
    fn default() -> (m: Self)
        ensures
            m == no_modifiers(),
    {
        ModifiersState {
            ctrl: false,
            alt: false,
            shift: false,
            logo: false,
            caps_lock: false,
            num_lock: false,
            scroll_lock: false,
        }
    }
}

#[derive(Debug, Clone, Copy, PartialEq, Eq, Structural)]
pub struct KeyboardRepeatConfig {
    pub delay_ms: u32,
    pub interval_ms: u32,
}

/// What happened. Coordinates, deltas and wheel values are the bit
/// patterns of `f64` values.
#[allow(inconsistent_fields)]
#[derive(Debug, Clone, Copy)]
pub enum InputEventType {
    KeyPress { key: u32, state: KeyState, modifiers: ModifiersState },
    MouseMotion { x: u64, y: u64, dx: u64, dy: u64 },
    MouseButton { button: u32, state: ButtonState },
    MouseWheel { axis: Axis, value: u64 },
    TouchDown { x: u64, y: u64, slot: u32 },
    TouchMove { x: u64, y: u64, dx: u64, dy: u64, slot: u32 },
    TouchUp { slot: u32 },
}

#[derive(Debug)]
pub struct InputEvent {
    pub timestamp: std::time::Instant,
    pub device_id: InputDeviceId,
    pub event_type: InputEventType,
}

/// What the handler tracks: modifiers, pointer position, mouse buttons.
pub type PointerState = (ModifiersState, (u64, u64), Map<u32, ButtonState>);

/// The tracked state after one event.
pub open spec fn after_event(s: PointerState, e: InputEventType) -> PointerState {
    match e {
        InputEventType::KeyPress { modifiers, .. } => (modifiers, s.1, s.2),
        InputEventType::MouseMotion { x, y, .. } => (s.0, (x, y), s.2),
        InputEventType::MouseButton { button, state } => (s.0, s.1, s.2.insert(button, state)),
        InputEventType::TouchDown { x, y, .. } => (s.0, (x, y), s.2),
        InputEventType::TouchMove { x, y, .. } => (s.0, (x, y), s.2),
        _ => s,
    }
}

/// The tracked state after a sequence of events, in order.
pub open spec fn after_events(s: PointerState, es: Seq<InputEvent>) -> PointerState
    decreases es.len(),
{
    if es.len() == 0 {
        s
    } else {
        after_event(after_events(s, es.drop_last()), es.last().event_type)
    }
}

/// Where an event puts the pointer, for events that carry a position.
pub open spec fn position_of(e: InputEventType) -> Option<(u64, u64)> {
    match e {
        InputEventType::MouseMotion { x, y, .. } => Some((x, y)),
        InputEventType::TouchDown { x, y, .. } => Some((x, y)),
        InputEventType::TouchMove { x, y, .. } => Some((x, y)),
        _ => None,
    }
}

/// Event `i` of `es` is the last one that carries a position.
pub open spec fn last_positional(es: Seq<InputEvent>, i: int) -> bool {
    &&& 0 <= i < es.len()
    &&& position_of(es[i].event_type) is Some
    &&& forall|j: int| i < j < es.len() ==> position_of(#[trigger] es[j].event_type) is None
}

/// After a sequence of events the pointer is where the last mouse motion,
/// touch-down or touch-move put it; with no such event it has not moved.
pub proof fn lemma_pointer_follows_last_position(s: PointerState, es: Seq<InputEvent>)
    ensures
        forall|i: int| last_positional(es, i) ==> after_events(s, es).1 == position_of(
            es[i].event_type,
        )->0,
        (forall|j: int| 0 <= j < es.len() ==> position_of(#[trigger] es[j].event_type) is None)
            ==> after_events(s, es).1 == s.1,
    decreases es.len(),
{
    if es.len() > 0 {
        let d = es.drop_last();
        let n = es.len() - 1;
        lemma_pointer_follows_last_position(s, d);
        assert forall|i: int| last_positional(es, i) implies after_events(s, es).1 == position_of(
            es[i].event_type,
        )->0 by {
            if i < n {
                assert(position_of(es[n].event_type) is None);
                assert(last_positional(d, i)) by {
                    assert forall|j: int| i < j < d.len() implies position_of(#[trigger] d[j].event_type) is None by {
                        assert(d[j] == es[j]);
                    }
                }
            }
        }
        if forall|j: int| 0 <= j < es.len() ==> position_of(#[trigger] es[j].event_type) is None {
            assert(position_of(es[n].event_type) is None);
            assert forall|j: int| 0 <= j < d.len() implies position_of(#[trigger] d[j].event_type) is None by {
                assert(d[j] == es[j]);
            }
        }
    }
}

/// The modifiers a key event reports, for key events.
pub open spec fn modifiers_of(e: InputEventType) -> Option<ModifiersState> {
    match e {
        InputEventType::KeyPress { modifiers, .. } => Some(modifiers),
        _ => None,
    }
}

/// After a sequence of events the modifiers are those the last key event
/// reported; with no key event they are unchanged.
pub proof fn lemma_modifiers_follow_last_key(s: PointerState, es: Seq<InputEvent>)
    ensures
        forall|i: int|
            0 <= i < es.len() && modifiers_of(es[i].event_type) is Some && (forall|j: int|
                i < j < es.len() ==> modifiers_of(#[trigger] es[j].event_type) is None) ==> after_events(
                s,
                es,
            ).0 == modifiers_of(es[i].event_type)->0,
        (forall|j: int| 0 <= j < es.len() ==> modifiers_of(#[trigger] es[j].event_type) is None)
            ==> after_events(s, es).0 == s.0,
    decreases es.len(),
{
    if es.len() > 0 {
        let d = es.drop_last();
        let n = es.len() - 1;
        lemma_modifiers_follow_last_key(s, d);
        assert forall|i: int|
            0 <= i < es.len() && modifiers_of(es[i].event_type) is Some && (forall|j: int|
                i < j < es.len() ==> modifiers_of(#[trigger] es[j].event_type) is None) implies after_events(
            s,
            es,
        ).0 == modifiers_of(es[i].event_type)->0 by {
            if i < n {
                assert(modifiers_of(es[n].event_type) is None);
                assert forall|j: int| i < j < d.len() implies modifiers_of(#[trigger] d[j].event_type) is None by {
                    assert(d[j] == es[j]);
                    assert(modifiers_of(es[j].event_type) is None);
                }
                assert(d[i] == es[i]);
            }
        }
        if forall|j: int| 0 <= j < es.len() ==> modifiers_of(#[trigger] es[j].event_type) is None {
            assert(modifiers_of(es[n].event_type) is None);
            assert forall|j: int| 0 <= j < d.len() implies modifiers_of(#[trigger] d[j].event_type) is None by {
                assert(d[j] == es[j]);
            }
        }
    }
}

/// The state a mouse-button event reports for button `b`, if it is one.
pub open spec fn button_report(e: InputEventType, b: u32) -> Option<ButtonState> {
    match e {
        InputEventType::MouseButton { button, state } => if button == b {
            Some(state)
        } else {
            None
        },
        _ => None,
    }
}

/// After a sequence of events each mouse button is in the state its last
/// button event reported; a button without events keeps what it had.
pub proof fn lemma_buttons_follow_last_report(s: PointerState, es: Seq<InputEvent>, b: u32)
    ensures
        forall|i: int|
            0 <= i < es.len() && button_report(es[i].event_type, b) is Some && (forall|j: int|
                i < j < es.len() ==> button_report(#[trigger] es[j].event_type, b) is None) ==> after_events(
                s,
                es,
            ).2.contains_key(b) && after_events(s, es).2[b] == button_report(es[i].event_type, b)->0,
        (forall|j: int| 0 <= j < es.len() ==> button_report(#[trigger] es[j].event_type, b) is None)
            ==> after_events(s, es).2.contains_key(b) == s.2.contains_key(b) && (s.2.contains_key(b)
            ==> after_events(s, es).2[b] == s.2[b]),
    decreases es.len(),
{
    if es.len() > 0 {
        let d = es.drop_last();
        let n = es.len() - 1;
        lemma_buttons_follow_last_report(s, d, b);
        assert forall|i: int|
            0 <= i < es.len() && button_report(es[i].event_type, b) is Some && (forall|j: int|
                i < j < es.len() ==> button_report(#[trigger] es[j].event_type, b) is None) implies after_events(
            s,
            es,
        ).2.contains_key(b) && after_events(s, es).2[b] == button_report(es[i].event_type, b)->0 by {
            if i < n {
                assert(button_report(es[n].event_type, b) is None);
                assert forall|j: int| i < j < d.len() implies button_report(#[trigger] d[j].event_type, b) is None by {
                    assert(d[j] == es[j]);
                    assert(button_report(es[j].event_type, b) is None);
                }
                assert(d[i] == es[i]);
            }
        }
        if forall|j: int| 0 <= j < es.len() ==> button_report(#[trigger] es[j].event_type, b) is None {
            assert(button_report(es[n].event_type, b) is None);
            assert forall|j: int| 0 <= j < d.len() implies button_report(#[trigger] d[j].event_type, b) is None by {
                assert(d[j] == es[j]);
            }
        }
    }
}

pub struct InputHandler {
    devices: HashMap<u32, InputDeviceType>,
    events: VecDeque<InputEvent>,
    focused_window: Option<WindowId>,
    pointer_position: (u64, u64),
    modifiers: ModifiersState,
    mouse_buttons: HashMap<u32, ButtonState>,
    keyboard_repeat: Option<KeyboardRepeatConfig>,
    enabled: bool,
}

impl InputHandler {
    pub closed spec fn devices_view(&self) -> Map<u32, InputDeviceType> {
        self.devices@
    }

    /// Events waiting to be processed, oldest first.
    pub closed spec fn queue_view(&self) -> Seq<InputEvent> {
        self.events@
    }

    pub closed spec fn focus_view(&self) -> Option<WindowId> {
        self.focused_window
    }

    pub closed spec fn tracked_view(&self) -> PointerState {
        (self.modifiers, self.pointer_position, self.mouse_buttons@)
    }

    pub closed spec fn repeat_view(&self) -> Option<KeyboardRepeatConfig> {
        self.keyboard_repeat
    }

    pub closed spec fn enabled_view(&self) -> bool {
        self.enabled
    }

    /// An enabled handler with no devices, no events, no focus, the pointer
    /// at the origin, no modifiers, no buttons, and key repeat after 500 ms
    /// every 50 ms.
    pub fn new() -> (h: Self)
        ensures
            h.devices_view() == Map::<u32, InputDeviceType>::empty(),
            h.queue_view() == Seq::<InputEvent>::empty(),
            h.focus_view() is None,
            h.tracked_view() == (no_modifiers(), (0u64, 0u64), Map::<u32, ButtonState>::empty()),
            h.repeat_view() == Some(KeyboardRepeatConfig { delay_ms: 500, interval_ms: 50 }),
            h.enabled_view(),
    {
        InputHandler {
            devices: HashMap::new(),
            events: VecDeque::new(),
            focused_window: None,
            pointer_position: (0, 0),
            modifiers: ModifiersState::default(),
            mouse_buttons: HashMap::new(),
            keyboard_repeat: Some(KeyboardRepeatConfig { delay_ms: 500, interval_ms: 50 }),
            enabled: true,
        }
    }

    /// Handle every queued event in order; a disabled handler leaves its
    /// queue and state as they are.
    pub fn process(&mut self)
        ensures
            final(self).devices_view() == old(self).devices_view(),
            final(self).focus_view() == old(self).focus_view(),
            final(self).repeat_view() == old(self).repeat_view(),
            final(self).enabled_view() == old(self).enabled_view(),
            old(self).enabled_view() ==> final(self).queue_view() == Seq::<InputEvent>::empty()
                && final(self).tracked_view() == after_events(
                old(self).tracked_view(),
                old(self).queue_view(),
            ),
            !old(self).enabled_view() ==> final(self).queue_view() == old(self).queue_view()
                && final(self).tracked_view() == old(self).tracked_view(),
    {
        if !self.enabled {
            return;
        }
        let ghost all = self.events@;
        let ghost mut done: int = 0;
        while self.events.len() > 0
            invariant
                self.enabled,
                self.devices@ == old(self).devices@,
                self.focused_window == old(self).focused_window,
                self.keyboard_repeat == old(self).keyboard_repeat,
                0 <= done <= all.len(),
                self.events@ == all.subrange(done, all.len() as int),
                self.tracked_view() == after_events(old(self).tracked_view(), all.subrange(0, done)),
            decreases self.events@.len(),
        {
            let event = self.events.pop_front().unwrap();
            self.handle_event(event);
            proof {
                assert(all.subrange(0, done + 1).drop_last() =~= all.subrange(0, done));
                assert(self.events@ =~= all.subrange(done + 1, all.len() as int));
                done = done + 1;
            }
        }
        assert(all.subrange(0, all.len() as int) =~= all);
    }

    fn handle_event(&mut self, event: InputEvent)
        ensures
            final(self).tracked_view() == after_event(old(self).tracked_view(), event.event_type),
            final(self).devices@ == old(self).devices@,
            final(self).events@ == old(self).events@,
            final(self).focused_window == old(self).focused_window,
            final(self).keyboard_repeat == old(self).keyboard_repeat,
            final(self).enabled == old(self).enabled,
    {
        match event.event_type {
            InputEventType::KeyPress { modifiers, .. } => {
                self.modifiers = modifiers;
            },
            InputEventType::MouseMotion { x, y, .. } => {
                self.pointer_position = (x, y);
            },
            InputEventType::MouseButton { button, state } => {
                self.mouse_buttons.insert(button, state);
            },
            InputEventType::TouchDown { x, y, .. } => {
                self.pointer_position = (x, y);
            },
            InputEventType::TouchMove { x, y, .. } => {
                self.pointer_position = (x, y);
            },
            _ => {},
        }
    }

    pub fn set_focus(&mut self, window: Option<WindowId>)
        ensures
            final(self).focus_view() == window,
            final(self).devices_view() == old(self).devices_view(),
            final(self).queue_view() == old(self).queue_view(),
            final(self).tracked_view() == old(self).tracked_view(),
            final(self).repeat_view() == old(self).repeat_view(),
            final(self).enabled_view() == old(self).enabled_view(),
    {
        self.focused_window = window;
    }

    pub fn get_focus(&self) -> (r: Option<WindowId>)
        ensures
            r == self.focus_view(),
    {
        self.focused_window
    }

    pub fn get_modifiers(&self) -> (r: ModifiersState)
        ensures
            r == self.tracked_view().0,
    {
        self.modifiers
    }

    /// The pointer position, as the bit patterns of its `f64` coordinates.
    pub fn get_pointer_position(&self) -> (r: (u64, u64))
        ensures
            r == self.tracked_view().1,
    {
        self.pointer_position
    }

    /// The last reported state of mouse button `button`, if any.
    pub fn get_button(&self, button: u32) -> (r: Option<ButtonState>)
        ensures
            r == if self.tracked_view().2.contains_key(button) {
                Some(self.tracked_view().2[button])
            } else {
                None::<ButtonState>
            },
    {
        match self.mouse_buttons.get(&button) {
            Some(s) => Some(*s),
            None => None,
        }
    }

    pub fn set_enabled(&mut self, enabled: bool)
        ensures
            final(self).enabled_view() == enabled,
            final(self).devices_view() == old(self).devices_view(),
            final(self).queue_view() == old(self).queue_view(),
            final(self).focus_view() == old(self).focus_view(),
            final(self).tracked_view() == old(self).tracked_view(),
            final(self).repeat_view() == old(self).repeat_view(),
    {
        self.enabled = enabled;
    }

    pub fn is_enabled(&self) -> (r: bool)
        ensures
            r == self.enabled_view(),
    {
        self.enabled
    }

    pub fn register_device(&mut self, id: InputDeviceId, device_type: InputDeviceType)
        ensures
            final(self).devices_view() == old(self).devices_view().insert(id.0, device_type),
            final(self).queue_view() == old(self).queue_view(),
            final(self).focus_view() == old(self).focus_view(),
            final(self).tracked_view() == old(self).tracked_view(),
            final(self).repeat_view() == old(self).repeat_view(),
            final(self).enabled_view() == old(self).enabled_view(),
    {
        self.devices.insert(id.0, device_type);
    }

    pub fn unregister_device(&mut self, id: InputDeviceId)
        ensures
            final(self).devices_view() == old(self).devices_view().remove(id.0),
            final(self).queue_view() == old(self).queue_view(),
            final(self).focus_view() == old(self).focus_view(),
            final(self).tracked_view() == old(self).tracked_view(),
            final(self).repeat_view() == old(self).repeat_view(),
            final(self).enabled_view() == old(self).enabled_view(),
    {
        self.devices.remove(&id.0);
    }

    /// Queue an event for the next `process`.
    pub fn queue_event(&mut self, event: InputEvent)
        ensures
            final(self).queue_view() == old(self).queue_view().push(event),
            final(self).devices_view() == old(self).devices_view(),
            final(self).focus_view() == old(self).focus_view(),
            final(self).tracked_view() == old(self).tracked_view(),
            final(self).repeat_view() == old(self).repeat_view(),
            final(self).enabled_view() == old(self).enabled_view(),
    {
        self.events.push_back(event);
    }
}

} // verus!
