use rust_rdp::keys::{Key, KeyboardEvent, Modifiers};
use rust_rdp::remote_input::{
    command_actions, remote_key_action, RemoteCommand, HoverThrottle, ModifierState, PointerButtons, PointerState, RemoteAction, RemoteInput,
    RemotePos,
};
use rust_rdp::keys::KeyTransition;

const NO_BUTTONS: PointerButtons = PointerButtons {
    primary_pressed: false,
    primary_released: false,
    primary_down: false,
    secondary_pressed: false,
    secondary_released: false,
    secondary_down: false,
    middle_pressed: false,
    middle_released: false,
    extra1_pressed: false,
    extra1_released: false,
    extra2_pressed: false,
    extra2_released: false,
};
const OFF: HoverThrottle = HoverThrottle { enabled: false, interval_ms: 0 };
const NONE: Modifiers = Modifiers { alt: false, ctrl: false, shift: false, mac_cmd: false, command: false };

fn mouse(x: i32, y: i32, action: i32) -> RemoteAction {
    RemoteAction::Mouse { x, y, action }
}

#[test]
fn first_move_is_sent_and_remembered() {
    let mut p = PointerState::new();
    assert_eq!(p.step(10, 20, NO_BUTTONS, OFF, 0), vec![mouse(10, 20, 0)]);
    assert_eq!(p.last_mouse, Some(RemotePos { x: 10, y: 20 }));
    assert_eq!(p.step(10, 20, NO_BUTTONS, OFF, 5), vec![]);
}

#[test]
fn click_press_and_release() {
    let mut p = PointerState::new();
    let press = PointerButtons { primary_pressed: true, primary_down: true, ..NO_BUTTONS };
    assert_eq!(p.step(5, 5, press, OFF, 0), vec![mouse(5, 5, 0), mouse(5, 5, 1)]);
    assert!(p.left_down);
    let release = PointerButtons { primary_released: true, ..NO_BUTTONS };
    assert_eq!(p.step(5, 5, release, OFF, 16), vec![mouse(5, 5, 2)]);
    assert!(!p.left_down);
}

#[test]
fn release_in_the_press_frame_is_deferred() {
    let mut p = PointerState::new();
    let both = PointerButtons { primary_pressed: true, primary_released: true, ..NO_BUTTONS };
    assert_eq!(p.step(1, 1, both, OFF, 0), vec![mouse(1, 1, 0), mouse(1, 1, 1), RemoteAction::Repaint]);
    assert!(p.left_down);
    // Next frame: the button is no longer held, so the release is sent.
    assert_eq!(p.step(1, 1, NO_BUTTONS, OFF, 16), vec![mouse(1, 1, 2)]);
    assert!(!p.left_down);
}

#[test]
fn small_moves_while_pressing_are_touchpad_jitter() {
    let mut p = PointerState::new();
    let press = PointerButtons { primary_pressed: true, primary_down: true, ..NO_BUTTONS };
    let held = PointerButtons { primary_down: true, ..NO_BUTTONS };
    p.step(100, 100, press, OFF, 0);
    assert_eq!(p.step(104, 96, held, OFF, 16), vec![]);
    assert_eq!(p.step(109, 100, held, OFF, 32), vec![mouse(109, 100, 0)]);
    assert!(p.left_down_dragged);
    assert_eq!(p.step(110, 100, held, OFF, 48), vec![mouse(110, 100, 0)]);
}

#[test]
fn hover_moves_are_throttled() {
    let mut p = PointerState::new();
    let t = HoverThrottle { enabled: true, interval_ms: 10 };
    assert_eq!(p.step(1, 1, NO_BUTTONS, t, 1000), vec![mouse(1, 1, 0)]);
    assert_eq!(p.step(2, 2, NO_BUTTONS, t, 1030), vec![]);
    assert_eq!(p.step(3, 3, NO_BUTTONS, t, 1050), vec![mouse(3, 3, 0)]);
    let t2 = HoverThrottle { enabled: true, interval_ms: 5000 };
    assert_eq!(p.step(4, 4, NO_BUTTONS, t2, 2040), vec![]);
    assert_eq!(p.step(4, 4, NO_BUTTONS, t2, 2051), vec![mouse(4, 4, 0)]);
}

#[test]
fn other_buttons_map_to_their_codes() {
    let mut p = PointerState::new();
    let b = PointerButtons {
        secondary_pressed: true,
        secondary_down: true,
        middle_pressed: true,
        middle_released: true,
        extra1_pressed: true,
        extra2_pressed: true,
        extra2_released: true,
        ..NO_BUTTONS
    };
    assert_eq!(
        p.step(7, 8, b, OFF, 0),
        vec![mouse(7, 8, 0), mouse(7, 8, 3), mouse(7, 8, 5), mouse(7, 8, 6), mouse(7, 8, 7), mouse(7, 8, 9), mouse(7, 8, 10)]
    );
    assert!(p.right_down && p.extra1_down && !p.middle_down && !p.extra2_down);
}

#[test]
fn release_all_leaves_nothing_held() {
    let mut input = RemoteInput::new();
    input.modifiers.sync(Modifiers { shift: true, ctrl: true, ..NONE }, true);
    let press = PointerButtons { primary_pressed: true, secondary_pressed: true, primary_down: true, secondary_down: true, ..NO_BUTTONS };
    input.pointer.step(3, 4, press, OFF, 0);
    let ev = KeyboardEvent::Key { key: Key::A, physical_key: Some(Key::A), pressed: true, repeat: false, modifiers: NONE };
    assert_eq!(
        input.keys.key_event(&ev, NONE),
        vec![RemoteAction::Scancode { scancode: 0x1E, extended: false, pressed: true }]
    );
    assert!(input.keys.is_held(Key::A));
    let acts = input.release_all();
    assert_eq!(
        acts,
        vec![
            RemoteAction::Scancode { scancode: 0x1E, extended: false, pressed: false },
            RemoteAction::Scancode { scancode: 0x2A, extended: false, pressed: false },
            RemoteAction::Scancode { scancode: 0x1D, extended: false, pressed: false },
            RemoteAction::Scancode { scancode: 0x5B, extended: true, pressed: false },
            mouse(3, 4, 2),
            mouse(3, 4, 4),
        ]
    );
    assert!(!input.keys.is_held(Key::A));
    assert_eq!(input.modifiers, ModifierState::new());
    assert!(!input.pointer.left_down && !input.pointer.right_down);
}

#[test]
fn modifiers_are_sent_only_when_they_change() {
    let mut m = ModifierState::new();
    assert_eq!(
        m.sync(Modifiers { alt: true, ..NONE }, false),
        vec![RemoteAction::Scancode { scancode: 0x38, extended: false, pressed: true }]
    );
    assert_eq!(m.sync(Modifiers { alt: true, ..NONE }, false), vec![]);
    assert_eq!(
        m.sync(Modifiers { mac_cmd: true, ..NONE }, false),
        vec![
            RemoteAction::Scancode { scancode: 0x38, extended: false, pressed: false },
            RemoteAction::Scancode { scancode: 0x5B, extended: true, pressed: true },
        ]
    );
}

#[test]
fn ctrl_alt_end_is_sent_as_ctrl_alt_delete() {
    let ctrl_alt = Modifiers { ctrl: true, alt: true, ..NONE };
    assert_eq!(
        remote_key_action(KeyTransition { key: Key::End, pressed: true }, ctrl_alt),
        Some(RemoteAction::Scancode { scancode: 0x53, extended: true, pressed: true })
    );
    assert_eq!(
        remote_key_action(KeyTransition { key: Key::End, pressed: true }, NONE),
        Some(RemoteAction::Scancode { scancode: 0x4F, extended: true, pressed: true })
    );
    assert_eq!(remote_key_action(KeyTransition { key: Key::Other, pressed: true }, NONE), None);
}

#[test]
fn keys_are_tracked_once_and_released_on_key_up() {
    let mut input = RemoteInput::new();
    let down = KeyboardEvent::Key { key: Key::B, physical_key: None, pressed: true, repeat: false, modifiers: NONE };
    let up = KeyboardEvent::Key { key: Key::B, physical_key: None, pressed: false, repeat: false, modifiers: NONE };
    input.keys.key_event(&down, NONE);
    input.keys.key_event(&down, NONE);
    assert!(input.keys.is_held(Key::B));
    input.keys.key_event(&up, NONE);
    assert!(!input.keys.is_held(Key::B));
    assert_eq!(input.release_all(), vec![]);
}

#[test]
fn disconnect_forgets_buttons_and_position() {
    let mut p = PointerState::new();
    let press = PointerButtons { primary_pressed: true, primary_down: true, ..NO_BUTTONS };
    p.step(1, 2, press, OFF, 0);
    p.reset_after_disconnect();
    assert_eq!(p.last_mouse, None);
    assert!(!p.left_down);
    assert_eq!(p.release_buttons(), vec![]);
}

#[test]
fn menu_commands_send_fixed_key_sequences() {
    let sc = |scancode: i32, extended: bool, pressed: bool| RemoteAction::Scancode { scancode, extended, pressed };
    assert_eq!(
        command_actions(RemoteCommand::CtrlAltDel),
        vec![
            sc(0x1D, true, true),
            sc(0x38, false, true),
            sc(0x53, true, true),
            sc(0x53, true, false),
            sc(0x38, false, false),
            sc(0x1D, true, false),
        ]
    );
    assert_eq!(command_actions(RemoteCommand::VolumeUp), vec![sc(0x30, true, true), sc(0x30, true, false)]);
    assert_eq!(
        command_actions(RemoteCommand::ProjectDisplay),
        vec![sc(0x5B, true, true), sc(0x19, false, true), sc(0x19, false, false), sc(0x5B, true, false)]
    );
    assert_eq!(command_actions(RemoteCommand::PreviousTrack), vec![sc(0x10, true, true), sc(0x10, true, false)]);
}
