use rust_rdp::capture::{
    keycode_is_pressed, x11_super_pressed, CaptureGate, CaptureStep, WaylandState, KEY_LEFTMETA, KEY_RIGHTMETA,
};

#[test]
fn reads_x11_keymap_bits() {
    let mut keymap = [0u8; 32];
    let keycode = 133_u8;
    keymap[usize::from(keycode / 8)] = 1_u8 << (keycode % 8);

    assert!(keycode_is_pressed(&keymap, keycode));
    assert!(!keycode_is_pressed(&keymap, 134));
    assert!(!keycode_is_pressed(&keymap, 0));
}

#[test]
fn tracks_both_wayland_super_keys() {
    let mut state = WaylandState::default();

    state.set_super_key(KEY_LEFTMETA, true);
    state.set_super_key(KEY_RIGHTMETA, true);
    assert_eq!(state.super_keys_down, [true, true]);

    state.set_super_key(KEY_LEFTMETA, false);
    assert_eq!(state.super_keys_down, [false, true]);
}

#[test]
fn wayland_enter_reads_held_super_keys_and_leave_clears_them() {
    let mut state = WaylandState::default();
    state.keyboard_enter(&[30, KEY_RIGHTMETA]);
    assert_eq!(state.super_keys_down, [false, true]);
    assert!(state.super_pressed());
    state.keyboard_leave();
    assert_eq!(state.super_keys_down, [false, false]);
    assert!(!state.super_pressed());
    state.set_super_key(30, true);
    assert_eq!(state.super_keys_down, [false, false]);
}

#[test]
fn x11_super_uses_either_keycode() {
    let mut keymap = [0u8; 32];
    keymap[134 / 8] = 1 << (134 % 8);
    assert!(x11_super_pressed(&keymap, [133, 134]));
    assert!(!x11_super_pressed(&keymap, [133, 0]));
}

#[test]
fn failed_capture_is_not_retried_until_release() {
    let mut gate = CaptureGate::new();
    assert_eq!(gate.begin(true, true), CaptureStep::CallBackend);
    assert!(!gate.finish(true, false));
    assert_eq!(gate.begin(true, true), CaptureStep::Done(false));
    assert_eq!(gate.begin(false, true), CaptureStep::CallBackend);
    assert!(gate.finish(false, true));
    assert_eq!(gate.begin(true, true), CaptureStep::CallBackend);
}

#[test]
fn unsupported_backend_never_claims_capture() {
    let mut gate = CaptureGate::new();
    assert_eq!(gate.begin(true, false), CaptureStep::Done(false));
    assert_eq!(gate.begin(false, false), CaptureStep::Done(true));
}
