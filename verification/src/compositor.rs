//! The compositor: windows, XDG shell objects, surfaces, buffers, outputs,
//! input, window effects, the software painter and the RFB (VNC) protocol.

pub mod backend;
pub mod buffer;
pub mod effects;
pub mod input;
pub mod output;
pub mod render;
pub mod surface;
pub mod vnc;
pub mod wayland;
pub mod window;
pub mod xdg;

use vstd::prelude::*;
use crate::compositor::input::{InputEvent, InputHandler, after_events};
use crate::compositor::render::{Rect, all_painted, background, paint_frame, solid, window_damage};
use crate::compositor::vnc::Framebuffer;
use crate::compositor::window::{Window, WindowId, WindowManager, lists_exactly, shown, sorted_by_z};

verus! {

/// How often a frame is painted, in milliseconds (about 30 frames a second).
pub const FRAME_INTERVAL_MS: u64 = 33;

/// The framebuffer's initial fill; the painter's background colour.
pub open spec fn initial_fill() -> Seq<u8> {
    seq![16u8, 16u8, 24u8, 255u8]
}

/// The compositor's own state: its windows and its input handler. The
/// framebuffer and damage list it paints into are shared with the VNC
/// server and held by the caller.
pub struct Compositor {
    window_manager: WindowManager,
    input_handler: InputHandler,
}

impl Compositor {
    pub closed spec fn wm(&self) -> WindowManager {
        self.window_manager
    }

    pub closed spec fn input(&self) -> InputHandler {
        self.input_handler
    }

    pub open spec fn wf(&self) -> bool {
        self.wm().wf()
    }

    /// A compositor without windows and with a fresh input handler.
    pub fn new() -> (c: Self)
        ensures
            c.wf(),
            c.wm().windows_view() == Map::<u32, crate::compositor::window::Window>::empty(),
            c.wm().next_id_view() == 1,
            c.wm().z_counter() == 0,
            c.input().queue_view().len() == 0,
            c.input().enabled_view(),
    {
        Compositor { window_manager: WindowManager::new(), input_handler: InputHandler::new() }
    }

    /// The framebuffer a compositor starts with: default size, background colour.
    pub fn default_framebuffer() -> (fb: Framebuffer)
        ensures
            fb.wf(),
            fb.width == crate::compositor::vnc::DEFAULT_WIDTH,
            fb.height == crate::compositor::vnc::DEFAULT_HEIGHT,
            forall|k: int| 0 <= k < fb.pixels@.len() ==> #[trigger] fb.pixels@[k] == initial_fill()[k % 4],
    {
        let fill = [16u8, 16u8, 24u8, 255u8];
        assert(fill@ =~= initial_fill());
        Framebuffer::new(crate::compositor::vnc::DEFAULT_WIDTH, crate::compositor::vnc::DEFAULT_HEIGHT, fill)
    }

    pub fn window_manager(&self) -> (wm: &WindowManager)
        ensures
            *wm == self.wm(),
    {
        &self.window_manager
    }

    /// Create and focus a window.
    pub fn create_window(&mut self, title: String, app_id: String) -> (id: WindowId)
        requires
            old(self).wf(),
            old(self).wm().next_id_view() < u32::MAX,
            old(self).wm().z_counter() < u32::MAX - 1,
        ensures
            final(self).wf(),
            id.0 == old(self).wm().next_id_view(),
            final(self).wm().windows_view().contains_key(id.0),
            final(self).wm().windows_view()[id.0].title@ == title@,
            final(self).wm().windows_view()[id.0].app_id@ == app_id@,
            final(self).wm().focused_view() == Some(id),
            final(self).input() == old(self).input(),
    {
        self.window_manager.create_window(title, app_id)
    }

    /// `id` when such a window exists.
    pub fn get_window(&self, id: WindowId) -> (r: Option<WindowId>)
        ensures
            r == if self.wm().windows_view().contains_key(id.0) {
                Some(id)
            } else {
                None::<WindowId>
            },
    {
        match self.window_manager.get_window(id) {
            Some(_) => Some(id),
            None => None,
        }
    }

    /// Queue the events received since the last step, in order, then let
    /// the input handler process its whole queue.
    pub fn ingest(&mut self, events: Vec<InputEvent>)
        ensures
            final(self).wm() == old(self).wm(),
            final(self).input().devices_view() == old(self).input().devices_view(),
            final(self).input().focus_view() == old(self).input().focus_view(),
            final(self).input().repeat_view() == old(self).input().repeat_view(),
            final(self).input().enabled_view() == old(self).input().enabled_view(),
            old(self).input().enabled_view() ==> final(self).input().tracked_view() == after_events(
                old(self).input().tracked_view(),
                old(self).input().queue_view() + events@,
            ) && final(self).input().queue_view().len() == 0,
            !old(self).input().enabled_view() ==> final(self).input().queue_view()
                == old(self).input().queue_view() + events@,
    {
        let mut events = events;
        let ghost all = events@;
        let ghost q0 = self.input_handler.queue_view();
        let mut i: usize = 0;
        let n = events.len();
        while i < n
            invariant
                n == all.len(),
                i <= n,
                events@ == all.subrange(i as int, n as int),
                self.input_handler.queue_view() == q0 + all.subrange(0, i as int),
                self.input_handler.tracked_view() == old(self).input_handler.tracked_view(),
                self.input_handler.enabled_view() == old(self).input_handler.enabled_view(),
                self.input_handler.devices_view() == old(self).input_handler.devices_view(),
                self.input_handler.focus_view() == old(self).input_handler.focus_view(),
                self.input_handler.repeat_view() == old(self).input_handler.repeat_view(),
                self.window_manager == old(self).window_manager,
            decreases n - i,
        {
            let e = events.remove(0);
            proof {
                assert(e == all[i as int]);
            }
            self.input_handler.queue_event(e);
            proof {
                assert(all.subrange(0, i + 1) =~= all.subrange(0, i as int).push(all[i as int]));
                assert(events@ =~= all.subrange(i + 1, n as int));
            }
            i += 1;
        }
        assert(all.subrange(0, n as int) =~= all);
        self.input_handler.process();
    }

    /// Paint one frame into `fb`; returns its damage and the rectangle
    /// covering the whole framebuffer.
    pub fn render(&self, fb: &mut Framebuffer) -> (r: (Vec<Rect>, Rect))
        requires
            self.wf(),
            forall|k: u32| #[trigger]
                self.wm().windows_view().contains_key(k) ==> self.wm().windows_view()[k].paint_fits(),
        ensures
            final(fb).width == old(fb).width,
            final(fb).height == old(fb).height,
            final(fb).sequence == old(fb).sequence.wrapping_add(1),
            exists|s: Seq<&Window>|
                {
                    &&& lists_exactly(s, self.wm().windows_view(), |w: Window| shown(w))
                    &&& sorted_by_z(s, false)
                    &&& final(fb).pixels@ == all_painted(
                        solid(old(fb).pixels@, background()),
                        old(fb).width as int,
                        old(fb).height as int,
                        s,
                    )
                    &&& r.0@ == seq![Rect::full_spec(old(fb).width as u32, old(fb).height as u32)]
                        + window_damage(old(fb).width as int, old(fb).height as int, s)
                },
            r.1 == Rect::full_spec(old(fb).width as u32, old(fb).height as u32),
    {
        let damage = paint_frame(fb, &self.window_manager);
        let full = Rect::full(fb.width as u32, fb.height as u32);
        (damage, full)
    }
}

/// Whether a frame is due `elapsed_ms` milliseconds after the last one.
pub fn frame_due(elapsed_ms: u64) -> (b: bool)
    ensures
        b == (elapsed_ms >= FRAME_INTERVAL_MS),
{
    elapsed_ms >= FRAME_INTERVAL_MS
}

} // verus!
