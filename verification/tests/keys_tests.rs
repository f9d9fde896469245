use rust_rdp::keys::{
    egui_key_to_scancode, ensure_text_events_for_keyboard_input, is_extended_scancode, Key, KeyTransition,
    KeyboardEvent, Modifiers, RemoteKeyboardState,
};

const NONE: Modifiers = Modifiers { alt: false, ctrl: false, shift: false, mac_cmd: false, command: false };
const CTRL: Modifiers = Modifiers { alt: false, ctrl: true, shift: false, mac_cmd: false, command: false };
const SHIFT: Modifiers = Modifiers { alt: false, ctrl: false, shift: true, mac_cmd: false, command: false };

fn key_event(key: Key, pressed: bool, modifiers: Modifiers) -> KeyboardEvent {
    KeyboardEvent::Key { key, physical_key: Some(key), pressed, repeat: false, modifiers }
}

#[test]
fn restores_copy_key_down_and_uses_native_key_up() {
    let mut state = RemoteKeyboardState::default();

    assert_eq!(state.transitions(&KeyboardEvent::Copy), vec![KeyTransition { key: Key::C, pressed: true }]);
    assert_eq!(
        state.transitions(&key_event(Key::C, false, CTRL)),
        vec![KeyTransition { key: Key::C, pressed: false }]
    );
}

#[test]
fn restores_paste_key_down_and_uses_native_key_up() {
    let mut state = RemoteKeyboardState::default();

    assert_eq!(
        state.transitions(&KeyboardEvent::Paste("clipboard text".into())),
        vec![KeyTransition { key: Key::V, pressed: true }]
    );
    assert_eq!(
        state.transitions(&key_event(Key::V, false, CTRL)),
        vec![KeyTransition { key: Key::V, pressed: false }]
    );
}

#[test]
fn reconstructs_paste_when_empty_local_clipboard_suppresses_key_down() {
    let mut state = RemoteKeyboardState::default();

    assert_eq!(
        state.transitions(&key_event(Key::V, false, CTRL)),
        vec![KeyTransition { key: Key::V, pressed: true }, KeyTransition { key: Key::V, pressed: false }]
    );
}

#[test]
fn restores_cut_and_leaves_normal_keys_unchanged() {
    let mut state = RemoteKeyboardState::default();

    assert_eq!(state.transitions(&KeyboardEvent::Cut), vec![KeyTransition { key: Key::X, pressed: true }]);
    assert_eq!(
        state.transitions(&key_event(Key::A, true, CTRL)),
        vec![KeyTransition { key: Key::A, pressed: true }]
    );
}

#[test]
fn maps_plus_and_special_keys_to_scancodes() {
    assert_eq!(egui_key_to_scancode(Key::Plus), Some((0x0D, false)));
    assert_eq!(egui_key_to_scancode(Key::Equals), Some((0x0D, false)));
    assert_eq!(egui_key_to_scancode(Key::Colon), Some((0x27, false)));
    assert_eq!(egui_key_to_scancode(Key::Pipe), Some((0x2B, false)));
    assert_eq!(egui_key_to_scancode(Key::Questionmark), Some((0x35, false)));
}

#[test]
fn standard_letters_are_not_extended_scancodes() {
    let test_letters = [
        Key::Q, Key::W, Key::E, Key::R, Key::T, Key::Y, Key::U, Key::I, Key::O, Key::P, Key::A, Key::S, Key::D,
        Key::F, Key::G, Key::H, Key::J, Key::K, Key::L, Key::Z, Key::X, Key::C, Key::V, Key::B, Key::N, Key::M,
    ];
    for letter in test_letters {
        if let Some((scancode, _)) = egui_key_to_scancode(letter) {
            assert!(
                !is_extended_scancode(scancode),
                "Letter {:?} with scancode 0x{:02X} must not be marked as extended scancode",
                letter,
                scancode
            );
        }
    }
}

#[test]
fn synthesizes_missing_text_event_for_period_key() {
    let mut events = vec![key_event(Key::Period, true, NONE)];
    ensure_text_events_for_keyboard_input(&mut events);
    assert_eq!(events.len(), 2);
    assert_eq!(events[1], KeyboardEvent::Text(".".to_string()));
}

#[test]
fn synthesizes_shift_period_key_as_greater_than() {
    let mut events = vec![key_event(Key::Period, true, SHIFT)];
    ensure_text_events_for_keyboard_input(&mut events);
    assert_eq!(events.len(), 2);
    assert_eq!(events[1], KeyboardEvent::Text(">".to_string()));
}

#[test]
fn does_not_duplicate_existing_text_event_for_period_key() {
    let mut events = vec![key_event(Key::Period, true, NONE), KeyboardEvent::Text(".".to_string())];
    ensure_text_events_for_keyboard_input(&mut events);
    assert_eq!(events.len(), 2);
}

#[test]
fn synthesizes_shift_number_two_as_at_symbol() {
    let mut events = vec![key_event(Key::Num2, true, SHIFT)];
    ensure_text_events_for_keyboard_input(&mut events);
    assert_eq!(events.len(), 2);
    assert_eq!(events[1], KeyboardEvent::Text("@".to_string()));
}

#[test]
fn synthesizes_letter_keys_correctly() {
    let mut events = vec![key_event(Key::A, true, NONE), key_event(Key::B, true, SHIFT)];
    ensure_text_events_for_keyboard_input(&mut events);
    assert_eq!(events.len(), 4);
    assert_eq!(events[2], KeyboardEvent::Text("a".to_string()));
    assert_eq!(events[3], KeyboardEvent::Text("B".to_string()));
}

#[test]
fn ctrl_held_suppresses_text_synthesis() {
    let mut events = vec![key_event(Key::A, true, CTRL)];
    ensure_text_events_for_keyboard_input(&mut events);
    assert_eq!(events.len(), 1);
}

#[test]
fn key_release_does_not_synthesize_text() {
    let mut events = vec![key_event(Key::A, false, NONE)];
    ensure_text_events_for_keyboard_input(&mut events);
    assert_eq!(events.len(), 1);
}

#[test]
fn repeated_copy_does_not_press_twice() {
    let mut state = RemoteKeyboardState::default();
    assert_eq!(state.transitions(&KeyboardEvent::Copy).len(), 1);
    assert_eq!(state.transitions(&KeyboardEvent::Copy).len(), 0);
}

#[test]
fn navigation_keys_are_extended() {
    assert_eq!(egui_key_to_scancode(Key::ArrowLeft), Some((0x4B, true)));
    assert!(is_extended_scancode(0x4B));
    assert!(is_extended_scancode(0x53));
    assert!(!is_extended_scancode(0x1E));
    assert_eq!(egui_key_to_scancode(Key::Other), None);
}
