use rust_rdp::der::{extract_raw_public_key, read_der_length};
use rust_rdp::desktop::{
    can_connect, close_confirm_label, connect_request, cursor_shape, handle_shortcuts, tab_title, window_title,
    ConnectionState, CursorShape,
};
use rust_rdp::config::Prefs;
use rust_rdp::frame::FrameBuffer;
use rust_rdp::input::{rdp_pointer_flags, rdp_wheel_events, scancode_to_keysym, vnc_button_mask, RdpInputEvent};
use rust_rdp::keys::{Key, Modifiers};
use rust_rdp::numbers::{parse_i32, parse_u64, push_decimal};
use rust_rdp::server_key::server_public_key;
use rust_rdp::session::{
    disconnect_session, disconnect_session_id, register_session, send_mouse_event, send_scancode_event,
    set_active_session, SessionInput, SessionKind, SessionRegistry,
};
use rust_rdp::text::string_from_chars;
use rust_rdp::callback::is_rust_log_message;

#[test]
fn registry_routes_input_to_the_active_session() {
    let mut reg: SessionRegistry<&str> = SessionRegistry::new();
    let a = register_session(&mut reg, SessionKind::Rdp, "a");
    let b = register_session(&mut reg, SessionKind::Vnc { button_mask: 0 }, "b");
    assert_eq!((a, b), (1, 2));
    set_active_session(&mut reg, b);
    let routed = send_mouse_event(&mut reg, 5, 6, 1).unwrap();
    assert_eq!(routed.session_id, 2);
    assert!(matches!(routed.input, SessionInput::Vnc(_)));
    set_active_session(&mut reg, a);
    let routed = send_scancode_event(&reg, 0x1E, false, 1).unwrap();
    assert_eq!(routed.session_id, 1);
    assert_eq!(disconnect_session_id(&mut reg, a), Some("a"));
    assert_eq!(disconnect_session_id(&mut reg, a), None);
    assert_eq!(disconnect_session(&mut reg), vec!["b"]);
    assert!(send_mouse_event(&mut reg, 1, 1, 0).is_none());
}

#[test]
fn pointer_flags_and_button_masks() {
    assert_eq!(rdp_pointer_flags(1), 0x8000 | 0x1000);
    assert_eq!(rdp_pointer_flags(2), 0x1000);
    assert_eq!(rdp_pointer_flags(0), 0x0800);
    assert_eq!(vnc_button_mask(0, 1), 1);
    assert_eq!(vnc_button_mask(1, 2), 0);
}

#[test]
fn wheel_events_carry_the_rotation() {
    let events = rdp_wheel_events(3, 4, 120);
    assert!(!events.is_empty());
    match events[0] {
        RdpInputEvent::Mouse { x, y, .. } => assert_eq!((x, y), (3, 4)),
        _ => panic!("expected a mouse event"),
    }
}

#[test]
fn scancode_keysyms() {
    assert_eq!(scancode_to_keysym(0x1E, false), Some(0x61));
    assert_eq!(scancode_to_keysym(0x01, false), Some(0xFF1B));
}

#[test]
fn der_lengths_and_keys() {
    let mut cursor = 0usize;
    assert_eq!(read_der_length(&[0x82, 0x01, 0x00], &mut cursor), Some(256));
    assert_eq!(cursor, 3);
    let mut cursor = 0usize;
    assert_eq!(read_der_length(&[0x05], &mut cursor), Some(5));
    assert_eq!(extract_raw_public_key(&[0x01]), None);
    assert_eq!(server_public_key(None), Some(vec![]));
    assert_eq!(server_public_key(Some(&[0x30, 0x00])), Some(vec![]));
}

#[test]
fn numbers_parse_and_print() {
    let mut out = Vec::new();
    push_decimal(&mut out, 1234567890);
    assert_eq!(string_from_chars(&out), "1234567890");
    assert_eq!(parse_u64(&"+42".chars().collect::<Vec<_>>()), Some(42));
    assert_eq!(parse_i32(&"-2147483648".chars().collect::<Vec<_>>()), Some(i32::MIN));
    assert_eq!(parse_i32(&"2147483648".chars().collect::<Vec<_>>()), None);
}

#[test]
fn connection_form_decisions() {
    let mut p = Prefs::default();
    assert!(!can_connect(&p, ConnectionState::Idle));
    assert_eq!(tab_title(&p, ConnectionState::Idle), "New connection");
    p.host = " example ".to_string();
    p.port = "x".to_string();
    p.mode = "VNC".to_string();
    p.width = "100".to_string();
    p.height = "9999".to_string();
    assert!(can_connect(&p, ConnectionState::Failed));
    assert!(!can_connect(&p, ConnectionState::Connected));
    let r = connect_request(&p);
    assert_eq!(r.host, "example");
    assert_eq!(r.port, 5900);
    assert_eq!(r.width, 640);
    assert_eq!(r.height, 4320);
    assert_eq!(ConnectionState::from_code(2), ConnectionState::Connected);
    assert_eq!(ConnectionState::Connecting.label(), "Connecting…");
    assert_eq!(cursor_shape(2), CursorShape::Text);
    assert_eq!(cursor_shape(99), CursorShape::Default);
}

#[test]
fn shortcuts_only_with_ctrl_and_without_grab() {
    let ctrl = Modifiers { alt: false, ctrl: true, shift: false, mac_cmd: false, command: true };
    let s = handle_shortcuts(false, ctrl, &[Key::D, Key::Plus]);
    assert!(s.disconnect && s.zoom_in && !s.quit);
    let s = handle_shortcuts(true, ctrl, &[Key::D]);
    assert!(!s.disconnect);
}

#[test]
fn frame_buffer_generation_and_rgba() {
    let mut f = FrameBuffer::new(2, 1);
    f.set_frame(&[0x0011_2233, 0x0044_5566], 2, 1);
    assert!(f.generation > 0);
    assert_eq!(f.to_rgba()[0..4], [0x11, 0x22, 0x33, 0xFF]);
}

#[test]
fn diagnostic_messages_are_recognised() {
    assert!(is_rust_log_message("  [Rust Log] Reader loop started"));
    assert!(!is_rust_log_message("Connected successfully"));
}

#[test]
fn window_title_follows_the_active_tab() {
    let mut p = Prefs::default();
    p.host = "10.0.0.5".to_string();
    assert_eq!(window_title(&p, ConnectionState::Connected, 1), "10.0.0.5:3389 \u{2014} RDP \u{2014} Rust RDP VNC");
    assert_eq!(window_title(&p, ConnectionState::Idle, 3), "Rust RDP VNC (3 tabs)");
    assert_eq!(window_title(&p, ConnectionState::Failed, 1), "Rust RDP VNC");
    assert_eq!(close_confirm_label(ConnectionState::Connecting), "still connecting");
    assert_eq!(close_confirm_label(ConnectionState::Connected), "connected");
    assert_eq!(close_confirm_label(ConnectionState::Idle), "active");
}

#[test]
fn protocol_switch_moves_default_ports() {
    let mut p = Prefs::default();
    p.select_protocol("VNC");
    assert_eq!((p.mode.as_str(), p.port.as_str()), ("VNC", "5900"));
    p.select_protocol("RDP");
    assert_eq!((p.mode.as_str(), p.port.as_str()), ("RDP", "3389"));
    p.port = "4000".to_string();
    p.select_protocol("VNC");
    assert_eq!((p.mode.as_str(), p.port.as_str()), ("VNC", "4000"));
}

#[test]
fn wheel_pdus_carry_the_whole_rotation_in_their_low_byte() {
    let down = rdp_wheel_events(7, 9, -250);
    let fields: Vec<i16> = down[1..]
        .iter()
        .map(|e| match e {
            RdpInputEvent::Mouse { flags, wheel_rotation_units, .. } => {
                assert_eq!(*flags, 0x0200);
                *wheel_rotation_units
            }
            _ => panic!("expected a wheel event"),
        })
        .collect();
    assert_eq!(fields, vec![-136, -136, -246]);
    let total: i32 = fields.iter().map(|f| (*f as i32).rem_euclid(256)).sum();
    assert_eq!(total, 250);
    // More than 24 notches are capped.
    assert_eq!(rdp_wheel_events(0, 0, 120 * 30).len(), 1 + 24);
}
