use oblivion::compositor::backend::Backend;
use oblivion::compositor::buffer::{BufferId, BufferManager, MAX_BUFFERS};
use oblivion::compositor::effects::{BlurEffect, TransitionType, WindowEffects};
use oblivion::compositor::input::{
    ButtonState, InputDeviceId, InputDeviceType, InputEvent, InputEventType, InputHandler,
    KeyState, ModifiersState,
};
use oblivion::compositor::output::{OutputId, OutputInfo, OutputManager};
use oblivion::compositor::render::{fill_rect, paint_frame, DamageState, Rect, MAX_DAMAGE_RECTS};
use oblivion::compositor::surface::{SurfaceId, SurfaceRole, SurfaceTree};
use oblivion::compositor::vnc::Framebuffer;
use oblivion::compositor::window::{GrabMode, ResizeEdge, Window, WindowId, WindowManager, WindowState};
use oblivion::compositor::wayland::WaylandManager;
use oblivion::compositor::xdg::XdgManager;
use oblivion::compositor::{frame_due, Compositor};

fn pixel(fb: &Framebuffer, x: usize, y: usize) -> [u8; 4] {
    let i = (y * fb.width as usize + x) * 4;
    [fb.pixels[i], fb.pixels[i + 1], fb.pixels[i + 2], fb.pixels[i + 3]]
}

fn event(t: InputEventType) -> InputEvent {
    InputEvent { timestamp: std::time::Instant::now(), device_id: InputDeviceId::new(0), event_type: t }
}

#[test]
fn new_window_defaults() {
    let w = Window::new(WindowId::new(7), "t".to_string(), "app".to_string());
    assert_eq!((w.x, w.y, w.width, w.height), (100, 100, 800, 600));
    assert_eq!(w.state, WindowState::Normal);
    assert_eq!((w.min_width, w.min_height), (Some(400), Some(300)));
    assert!(w.visible && !w.focused && w.shadow);
    assert_eq!(w.grab_mode, GrabMode::Idle);
}

#[test]
fn maximize_then_restore_gives_back_geometry() {
    let mut w = Window::new(WindowId::new(1), String::new(), String::new());
    w.set_position(10, 20);
    w.set_size(500, 400);
    w.maximize();
    assert_eq!(w.state, WindowState::Maximized);
    w.set_position(0, 0);
    w.set_size(1920, 1080);
    w.restore();
    assert_eq!((w.x, w.y, w.width, w.height), (10, 20, 500, 400));
    assert_eq!(w.state, WindowState::Normal);
}

#[test]
fn fullscreen_round_trip() {
    let mut w = Window::new(WindowId::new(1), String::new(), String::new());
    w.set_position(-3, 4);
    w.set_fullscreen(true);
    assert_eq!(w.state, WindowState::Fullscreen);
    w.set_size(1000, 1000);
    w.set_fullscreen(false);
    assert_eq!((w.x, w.y, w.width, w.height), (-3, 4, 800, 600));
    assert_eq!(w.state, WindowState::Normal);
}

#[test]
fn set_size_respects_minimum() {
    let mut w = Window::new(WindowId::new(1), String::new(), String::new());
    w.set_size(10, 10);
    assert_eq!((w.width, w.height), (400, 300));
    w.max_width = Some(600);
    w.set_size(9000, 350);
    assert_eq!((w.width, w.height), (600, 350));
}

#[test]
fn grabs_and_hit_testing() {
    let mut w = Window::new(WindowId::new(1), String::new(), String::new());
    w.start_drag(5, 6);
    assert!(w.is_moving() && !w.is_resizing());
    w.start_resize(ResizeEdge::Left, 1, 2);
    assert!(w.is_resizing() && !w.is_moving());
    w.end_grab();
    assert!(!w.is_resizing() && !w.is_moving());
    assert!(w.contains_point(100, 100));
    assert!(w.contains_point(899, 699));
    assert!(!w.contains_point(900, 100));
    assert!(!w.contains_point(99, 100));
}

#[test]
fn focus_raises_and_unfocuses_the_rest() {
    let mut wm = WindowManager::new();
    let a = wm.create_window("a".to_string(), "x".to_string());
    let b = wm.create_window("b".to_string(), "x".to_string());
    assert_eq!((a, b), (WindowId::new(1), WindowId::new(2)));
    assert_eq!(wm.get_focused_window(), Some(b));
    wm.focus_window(a);
    assert_eq!(wm.get_focused_window(), Some(a));
    let wa = wm.get_window(a).unwrap();
    let wb = wm.get_window(b).unwrap();
    assert!(wa.focused && !wb.focused);
    assert!(wa.z_index > wb.z_index);
    assert_eq!(wm.get_top_window().unwrap().id, a);
    let stacked: Vec<WindowId> = wm.get_stacked_windows().iter().map(|w| w.id).collect();
    assert_eq!(stacked, vec![b, a]);
    assert_eq!(wm.window_count(), 2);
}

#[test]
fn destroy_then_confirm_removes_window() {
    let mut wm = WindowManager::new();
    let a = wm.create_window("a".to_string(), "x".to_string());
    wm.destroy_window(a);
    assert_eq!(wm.get_window(a).unwrap().state, WindowState::Closing);
    assert_eq!(wm.get_closing_windows(), vec![a]);
    assert!(wm.has_visible_windows());
    wm.confirm_destroy(a);
    assert!(wm.get_window(a).is_none());
    assert_eq!(wm.window_count(), 0);
    assert_eq!(wm.get_closing_windows(), vec![a]);
}

#[test]
fn windows_at_point_topmost_first() {
    let mut wm = WindowManager::new();
    let a = wm.create_window("a".to_string(), "x".to_string());
    let b = wm.create_window("b".to_string(), "x".to_string());
    wm.move_window(b, 500, 500);
    assert_eq!(wm.get_windows_at_point(600, 600), vec![b, a]);
    assert_eq!(wm.get_windows_at_point(150, 150), vec![a]);
    assert!(wm.get_windows_at_point(0, 0).is_empty());
    wm.resize_window(a, 100, 100);
    assert_eq!(wm.get_window(a).unwrap().width, 400);
}

#[test]
fn fill_rect_paints_only_the_clipped_rectangle() {
    let mut fb = Framebuffer::new(4, 3, [0, 0, 0, 255]);
    fill_rect(&mut fb, 2, 1, 5, 5, [7, 8, 9, 255]);
    assert_eq!(pixel(&fb, 1, 1), [0, 0, 0, 255]);
    assert_eq!(pixel(&fb, 2, 1), [7, 8, 9, 255]);
    assert_eq!(pixel(&fb, 3, 2), [7, 8, 9, 255]);
    assert_eq!(pixel(&fb, 2, 0), [0, 0, 0, 255]);
    fill_rect(&mut fb, 9, 9, 1, 1, [1, 1, 1, 1]);
    assert_eq!(pixel(&fb, 3, 2), [7, 8, 9, 255]);
}

#[test]
fn paint_frame_damage_and_background() {
    let mut fb = Framebuffer::new(64, 48, [0, 0, 0, 0]);
    let mut wm = WindowManager::new();
    let damage = paint_frame(&mut fb, &wm);
    assert_eq!(damage, vec![Rect::full(64, 48)]);
    assert_eq!(pixel(&fb, 0, 0), [16, 16, 24, 255]);
    assert_eq!(pixel(&fb, 63, 47), [16, 16, 24, 255]);
    let a = wm.create_window("a".to_string(), "x".to_string());
    wm.move_window(a, 10, 10);
    let damage = paint_frame(&mut fb, &wm);
    assert_eq!(damage, vec![Rect::full(64, 48), Rect::new(10, 10, 800, 600)]);
    assert_ne!(pixel(&fb, 20, 20), [16, 16, 24, 255]);
    assert_eq!(pixel(&fb, 5, 5), [16, 16, 24, 255]);
    wm.move_window(a, 5000, 5000);
    let damage = paint_frame(&mut fb, &wm);
    assert_eq!(damage, vec![Rect::full(64, 48)]);
}

#[test]
fn damage_list_collapses_past_cap() {
    let mut d = DamageState::new((10, 10));
    d.publish(vec![Rect::new(0, 0, 1, 1); MAX_DAMAGE_RECTS], Rect::full(20, 30));
    assert_eq!(d.peek().len(), MAX_DAMAGE_RECTS);
    assert_eq!(d.fb_size(), (20, 30));
    d.publish(vec![Rect::new(1, 1, 1, 1)], Rect::full(20, 30));
    assert_eq!(d.peek(), vec![Rect::full(20, 30)]);
    assert_eq!(d.drain(), vec![Rect::full(20, 30)]);
    assert!(d.drain().is_empty());
}

#[test]
fn compositor_renders_and_ingests() {
    let mut c = Compositor::new();
    let id = c.create_window("term".to_string(), "t".to_string());
    assert_eq!(c.get_window(id), Some(id));
    assert_eq!(c.get_window(WindowId::new(99)), None);
    let mut fb = Compositor::default_framebuffer();
    assert_eq!((fb.width, fb.height), (1024, 768));
    let (damage, full) = c.render(&mut fb);
    assert_eq!(full, Rect::full(1024, 768));
    assert_eq!(damage, vec![Rect::full(1024, 768), Rect::new(100, 100, 800, 600)]);
    c.ingest(vec![event(InputEventType::MouseMotion { x: 3, y: 4, dx: 0, dy: 0 })]);
    assert!(frame_due(33) && !frame_due(32));
}

#[test]
fn input_handler_tracks_pointer_buttons_and_modifiers() {
    let mut h = InputHandler::new();
    assert!(h.is_enabled());
    let mods = ModifiersState { ctrl: true, ..ModifiersState::default() };
    h.queue_event(event(InputEventType::KeyPress { key: 30, state: KeyState::Pressed, modifiers: mods }));
    h.queue_event(event(InputEventType::MouseMotion { x: 11, y: 12, dx: 0, dy: 0 }));
    h.queue_event(event(InputEventType::MouseButton { button: 1, state: ButtonState::Pressed }));
    h.process();
    assert!(h.get_modifiers().ctrl);
    assert_eq!(h.get_pointer_position(), (11, 12));
    assert_eq!(h.get_button(1), Some(ButtonState::Pressed));
    assert_eq!(h.get_button(2), None);
    h.set_enabled(false);
    h.queue_event(event(InputEventType::MouseMotion { x: 1, y: 1, dx: 0, dy: 0 }));
    h.process();
    assert_eq!(h.get_pointer_position(), (11, 12));
    h.set_focus(Some(WindowId::new(4)));
    assert_eq!(h.get_focus(), Some(WindowId::new(4)));
    h.register_device(InputDeviceId::new(1), InputDeviceType::Mouse);
    h.unregister_device(InputDeviceId::new(1));
}

#[test]
fn buffers_are_capped_and_cleaned() {
    let mut m = BufferManager::new();
    let first = m.create_buffer(1, 1, 0, 4);
    assert_eq!(first, BufferId::new(1));
    for _ in 0..MAX_BUFFERS {
        m.create_buffer(2, 2, 0, 8);
    }
    assert!(m.get_buffer(first).is_none());
    let second = BufferId::new(2);
    m.mark_ready(second);
    assert!(m.get_buffer(second).unwrap().ready);
    m.cleanup();
    assert!(m.get_buffer(second).is_none());
    let third = BufferId::new(3);
    m.release_buffer(third);
    assert!(m.get_buffer(third).is_none());
    assert!(m.get_buffer(BufferId::new(4)).is_some());
}

#[test]
fn xdg_toplevels_and_popups() {
    let mut x = XdgManager::new();
    let t = x.create_toplevel("t".to_string(), "a".to_string());
    let p = x.create_popup();
    assert_eq!((t.as_u32(), p.as_u32()), (1, 1));
    let tl = x.get_toplevel(t).unwrap();
    assert_eq!((tl.width, tl.height), (800, 600));
    assert!(tl.active && !tl.fullscreen && !tl.maximized);
    assert!(x.get_popup(p).is_some());
    x.set_active_toplevel(Some(t));
    x.destroy_toplevel(t);
    assert!(x.get_toplevel(t).is_none());
    assert!(x.get_all_toplevels().is_empty());
}

#[test]
fn surfaces_get_increasing_ids() {
    let mut s = SurfaceTree::new();
    let a = s.add_surface(SurfaceRole::Toplevel);
    let b = s.add_surface(SurfaceRole::Popup);
    assert_eq!((a, b), (SurfaceId::new(1), SurfaceId::new(2)));
    assert_eq!(s.get_toplevels().len(), 1);
    assert_eq!(s.get_surface(b).unwrap().role, SurfaceRole::Popup);
    assert!(s.get_surface(SurfaceId::new(3)).is_none());
}

#[test]
fn outputs_are_named_by_make_and_counter() {
    let mut m = OutputManager::new();
    let primary = m.get_primary().unwrap();
    assert_eq!(primary.name, "DP-1");
    assert!(m.get_output(&OutputId::new("Generic-1")).is_some());
    let mut info = OutputInfo::default();
    info.primary = false;
    info.make = "Acme".to_string();
    let id = m.add_output(info);
    assert_eq!(id, OutputId::new("Acme-2"));
    assert_eq!(m.get_all_outputs().len(), 2);
    m.remove_output(&OutputId::new("Generic-1"));
    assert_eq!(m.get_all_outputs().len(), 1);
    assert!(m.get_output(&OutputId::new("Generic-1")).is_none());
}

#[test]
fn effects_builders() {
    let e = WindowEffects::new();
    assert_eq!(e.corner_radius, (12, 12, 12, 12));
    assert_eq!(e.blur, BlurEffect::NoBlur);
    assert_eq!(e.transition, TransitionType::NoTransition);
    assert!(e.shadow.enabled);
    assert_eq!(e.animations.duration_ms, 200);
    let mut e = e.with_corner_radius((1, 2, 3, 4)).with_blur(BlurEffect::Behind);
    assert_eq!(e.corner_radius, (1, 2, 3, 4));
    e.set_shadow(false);
    assert!(!e.shadow.enabled);
    assert_eq!(f32::from_bits(e.brightness), 1.0f32);
}

#[test]
fn backend_surfaces_and_size() {
    let mut b = Backend::new();
    assert_eq!(b.dimensions(), (1920, 1080));
    assert_eq!(b.add_surface(0, 0, 10, 10), 0);
    assert_eq!(b.add_surface(5, 5, 10, 10), 1);
    b.remove_surface(0);
    b.render();
    assert_eq!(b.add_surface(1, 1, 1, 1), 1);
    b.remove_surface(1);
    assert_eq!(b.add_surface(1, 1, 1, 1), 0);
}

#[test]
fn wayland_manager_runs_until_stopped() {
    let mut w = WaylandManager::init("wayland-1".to_string());
    assert_eq!(w.socket_name(), "wayland-1");
    assert!(w.is_running());
    w.stop();
    assert!(!w.is_running());
    assert_eq!(w.socket_name(), "wayland-1");
    assert_eq!(WaylandManager::new().socket_name(), "");
}

#[test]
fn get_window_mut_changes_in_place() {
    let mut wm = WindowManager::new();
    let a = wm.create_window("a".to_string(), "x".to_string());
    wm.get_window_mut(a).unwrap().urgent = true;
    assert!(wm.get_window(a).unwrap().urgent);
    assert!(wm.get_window_mut(WindowId::new(9)).is_none());
    assert_eq!(wm.window_count(), 1);
}

#[test]
fn new_toplevels_and_windows_start_fresh() {
    let mut x = XdgManager::new();
    let t = x.create_toplevel("t".to_string(), "a".to_string());
    let tl = x.get_toplevel(t).unwrap();
    assert_eq!((tl.x, tl.y), (0, 0));
    assert!(tl.decorations && tl.resizable && !tl.minimized && !tl.urgent);
    assert!(tl.min_width.is_none() && tl.max_height.is_none());
    let mut wm = WindowManager::new();
    let id = wm.create_window("w".to_string(), "x".to_string());
    let w = wm.get_window(id).unwrap();
    assert_eq!(w.decoration, oblivion::compositor::window::WindowDecoration::Server);
    assert_eq!(w.min_width, Some(400));
    assert!(w.saved_x.is_none() && w.shadow && w.focused);
}

#[test]
fn toplevel_surfaces_are_the_tree_surfaces() {
    let mut s = SurfaceTree::new();
    let a = s.add_surface(SurfaceRole::Toplevel);
    s.add_surface(SurfaceRole::Popup);
    let c = s.add_surface(SurfaceRole::Toplevel);
    let tops: Vec<SurfaceId> = s.get_toplevels().iter().map(|t| t.id).collect();
    assert_eq!(tops, vec![a, c]);
    assert_eq!(s.get_toplevels()[1].width, s.get_surface(c).unwrap().width);
}

#[test]
fn added_output_keeps_its_info() {
    let mut m = OutputManager::default();
    let d = m.get_output(&OutputId::new("Generic-1")).unwrap();
    assert_eq!(d.resolution, (1920, 1080));
    assert_eq!(d.handle.id(), 2);
    let mut info = OutputInfo::default();
    info.resolution = (800, 600);
    info.primary = false;
    info.position = (1920, 0);
    let id = m.add_output(info);
    let o = m.get_output(&id).unwrap();
    assert_eq!((o.resolution, o.position, o.handle.id()), ((800, 600), (1920, 0), 3));
    assert_eq!(m.get_primary().unwrap().resolution, (1920, 1080));
}
