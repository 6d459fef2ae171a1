use oblivion::compositor::input::{ButtonState, InputEventType, KeyState};
use oblivion::compositor::render::Rect;
use oblivion::compositor::vnc::{
    check_security, client_name_len, client_step, damage_region, full_update_region, incremental_update, key_event,
    last_rect_marker, parse_client_message, pointer_buttons, raw_rect_message, security_ok,
    security_offer, server_init, server_version, update_header, ClientMessage, Framebuffer,
    Parsed, RfbError, ServerAction, DEFAULT_HEIGHT, DEFAULT_WIDTH, MAX_RECT_DIM,
};

#[test]
fn handshake_bytes() {
    assert_eq!(server_version(), b"RFB 003.008\n".to_vec());
    assert_eq!(security_offer(), vec![1u8, 1]);
    assert_eq!(security_ok(), vec![0u8, 0, 0, 0]);
    assert!(check_security(1).is_ok());
    assert_eq!(client_name_len(1, 2), 258);
    assert!(matches!(check_security(2), Err(RfbError::UnsupportedSecurity(2))));
}

#[test]
fn server_init_layout() {
    let b = server_init(1024, 768, b"OblivionOS");
    let mut expected = vec![0x04u8, 0x00, 0x03, 0x00];
    expected.extend_from_slice(&[32, 24, 1, 1, 0, 255, 0, 255, 0, 255, 24, 16, 8, 0, 0, 0]);
    expected.extend_from_slice(&[0, 0, 0, 10]);
    expected.extend_from_slice(b"OblivionOS");
    assert_eq!(b, expected);
}

#[test]
fn parses_each_client_message() {
    assert_eq!(parse_client_message(&[]), Parsed::Incomplete);
    assert_eq!(parse_client_message(&[0u8; 23]), Parsed::Message(ClientMessage::SetPixelFormat, 20));
    assert_eq!(parse_client_message(&[0u8; 20]), Parsed::Message(ClientMessage::SetPixelFormat, 20));
    assert_eq!(parse_client_message(&[0u8; 19]), Parsed::Incomplete);
    assert_eq!(
        parse_client_message(&[2, 0, 0, 2, 0, 0, 0, 0, 0xff, 0xff, 0xff, 0x20]),
        Parsed::Message(ClientMessage::SetEncodings { count: 2 }, 12)
    );
    assert_eq!(parse_client_message(&[2, 0, 0, 2, 0, 0, 0, 0]), Parsed::Incomplete);
    assert_eq!(
        parse_client_message(&[3, 1, 0, 10, 0, 20, 1, 0, 0, 200]),
        Parsed::Message(
            ClientMessage::FramebufferUpdateRequest { incremental: true, x: 10, y: 20, w: 256, h: 200 },
            10
        )
    );
    assert_eq!(
        parse_client_message(&[4, 1, 0, 0, 0, 0, 0xff, 0x0d, 9]),
        Parsed::Message(ClientMessage::KeyEvent { down: true, key: 0xff0d }, 8)
    );
    assert_eq!(
        parse_client_message(&[5, 3, 0, 7, 1, 2]),
        Parsed::Message(ClientMessage::PointerEvent { mask: 3, x: 7, y: 258 }, 6)
    );
    assert_eq!(
        parse_client_message(&[6, 0, 0, 0, 0, 0, 0, 2, b'h', b'i']),
        Parsed::Message(ClientMessage::ClientCutText { len: 2 }, 10)
    );
    assert_eq!(parse_client_message(&[6, 0, 0, 0, 0, 0, 0, 3, b'h']), Parsed::Incomplete);
    assert_eq!(parse_client_message(&[9, 1, 2]), Parsed::Unknown(9));
}

#[test]
fn full_region_is_clamped() {
    assert_eq!(full_update_region(0, 0, 65535, 65535, 1024, 768), (0, 0, 1024, 768));
    assert_eq!(full_update_region(2000, 900, 10, 10, 1024, 768), (1023, 767, 1, 1));
    assert_eq!(full_update_region(5, 5, 0, 0, 1024, 768), (5, 5, 1, 1));
    assert_eq!(full_update_region(0, 0, 65535, 10, 8000, 768), (0, 0, MAX_RECT_DIM, 10));
}

#[test]
fn damage_regions_skip_empty_rects() {
    assert_eq!(damage_region(Rect::new(-5, 3, 10, 10), 1024, 768), Some((0, 3, 10, 10)));
    assert_eq!(damage_region(Rect::new(5000, 5000, 9999, 1), 1024, 768), Some((1023, 767, 4096, 1)));
    assert_eq!(damage_region(Rect::new(1, 1, 0, 5), 1024, 768), None);
    let dirty = vec![Rect::new(0, 0, 4, 4), Rect::new(9, 9, 0, 0), Rect::new(1, 2, 3, 4)];
    let u = incremental_update(&dirty, 1024, 768);
    assert_eq!(u.header, vec![0u8, 0, 0, 3]);
    assert_eq!(u.regions, vec![(0, 0, 4, 4), (1, 2, 3, 4)]);
    assert!(u.terminate);
    let none = incremental_update(&Vec::new(), 1024, 768);
    assert_eq!(none.header, vec![0u8, 0, 0, 0]);
    assert!(none.regions.is_empty());
    assert!(!none.terminate);
}

#[test]
fn raw_rect_and_markers() {
    assert_eq!(update_header(258), vec![0u8, 0, 1, 2]);
    assert_eq!(
        raw_rect_message(1, 2, 1, 1, &[9, 8, 7, 6]),
        vec![0u8, 1, 0, 2, 0, 1, 0, 1, 0, 0, 0, 0, 9, 8, 7, 6]
    );
    assert_eq!(last_rect_marker(), vec![0u8, 0, 0, 0, 0, 0, 0, 0, 0xff, 0xff, 0xff, 0x20]);
}

#[test]
fn pointer_mask_transitions() {
    assert_eq!(pointer_buttons(0, 0), Vec::new());
    assert_eq!(
        pointer_buttons(0b0000_0001, 0b0000_0100),
        vec![(1, ButtonState::Released), (3, ButtonState::Pressed)]
    );
    assert_eq!(pointer_buttons(0, 0x80), vec![(8, ButtonState::Pressed)]);
}

#[test]
fn key_events_have_no_modifiers() {
    match key_event(true, 0x61) {
        InputEventType::KeyPress { key, state, modifiers } => {
            assert_eq!(key, 0x61);
            assert_eq!(state, KeyState::Pressed);
            assert!(!modifiers.ctrl && !modifiers.shift && !modifiers.alt && !modifiers.logo);
        }
        other => panic!("unexpected {:?}", other),
    }
    assert!(matches!(key_event(false, 1), InputEventType::KeyPress { state: KeyState::Released, .. }));
}

#[test]
fn framebuffer_fill_and_snapshot() {
    let mut fb = Framebuffer::new(3, 2, [1, 2, 3, 4]);
    assert_eq!(fb.pixels.len(), 24);
    assert_eq!(&fb.pixels[..8], &[1, 2, 3, 4, 1, 2, 3, 4]);
    let seq = fb.sequence;
    fb.fill_solid([9, 9, 9, 255]);
    assert_eq!(fb.sequence, seq.wrapping_add(1));
    assert!(fb.pixels.chunks(4).all(|p| p == [9, 9, 9, 255]));
    fb.paint_rows(&vec![[1, 0, 0, 255], [0, 2, 0, 255]]);
    assert_eq!(fb.snapshot(1, 1, 2, 1).unwrap(), vec![0, 2, 0, 255, 0, 2, 0, 255]);
    assert_eq!(fb.snapshot(0, 0, 1, 2).unwrap(), vec![1, 0, 0, 255, 0, 2, 0, 255]);
    match fb.snapshot(2, 1, 2, 1) {
        Err(RfbError::OutOfBounds { offset, len }) => {
            assert_eq!(offset, 20);
            assert_eq!(len, 8);
        }
        other => panic!("unexpected {:?}", other),
    }
    assert_eq!((DEFAULT_WIDTH, DEFAULT_HEIGHT), (1024, 768));
}

#[test]
fn client_steps_decide_the_reply() {
    let full = client_step(0, ClientMessage::FramebufferUpdateRequest { incremental: false, x: 0, y: 0, w: 9000, h: 10 }, 1024, 768);
    assert!(matches!(full.action, ServerAction::FullUpdate(0, 0, 1024, 10)));
    assert_eq!(full.pointer_mask, 0);
    let inc = client_step(5, ClientMessage::FramebufferUpdateRequest { incremental: true, x: 0, y: 0, w: 1, h: 1 }, 1024, 768);
    assert!(matches!(inc.action, ServerAction::DamageUpdate));
    assert_eq!(inc.pointer_mask, 5);
    let key = client_step(1, ClientMessage::KeyEvent { down: false, key: 65 }, 1024, 768);
    assert!(matches!(key.action, ServerAction::Key(InputEventType::KeyPress { key: 65, state: KeyState::Released, .. })));
    assert_eq!(key.pointer_mask, 1);
    let ptr = client_step(1, ClientMessage::PointerEvent { mask: 2, x: 3, y: 4 }, 1024, 768);
    match ptr.action {
        ServerAction::Pointer { x, y, buttons } => {
            assert_eq!((x, y), (3, 4));
            assert_eq!(buttons, vec![(1, ButtonState::Released), (2, ButtonState::Pressed)]);
        }
        other => panic!("unexpected {:?}", other),
    }
    assert_eq!(ptr.pointer_mask, 2);
    let other = client_step(7, ClientMessage::ClientCutText { len: 3 }, 1024, 768);
    assert!(matches!(other.action, ServerAction::Nothing));
    assert_eq!(other.pointer_mask, 7);
    assert!(matches!(client_step(0, ClientMessage::SetPixelFormat, 1, 1).action, ServerAction::Nothing));
}
