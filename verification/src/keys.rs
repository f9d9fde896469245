//! Keyboard model: the keys of the local UI toolkit, their PC/AT scancodes,
//! and the bookkeeping that restores clipboard-shortcut key transitions.

use vstd::prelude::*;

use crate::input::spec_scancode_to_keysym;
use crate::text::{push_char, chars_of};

verus! {

/// A key of the local keyboard, as reported by the desktop UI toolkit.
#[derive(Clone, Copy, Debug, PartialEq, Eq, Structural)]
pub enum Key {
    Escape, Tab, Backspace, Enter, Space,
    Insert, Delete, Home, End, PageUp, PageDown,
    ArrowLeft, ArrowUp, ArrowRight, ArrowDown,
    Num0, Num1, Num2, Num3, Num4, Num5, Num6, Num7, Num8, Num9,
    A, B, C, D, E, F, G, H, I, J, K, L, M, N, O, P, Q, R, S, T, U, V, W, X, Y, Z,
    F1, F2, F3, F4, F5, F6, F7, F8, F9, F10, F11, F12,
    F13, F14, F15, F16, F17, F18, F19, F20,
    Minus, Equals, Plus, OpenBracket, CloseBracket, Backslash, Pipe,
    Semicolon, Colon, Quote, Backtick, Comma, Period, Slash, Questionmark,
    /// Any key without a PC/AT scancode in this client.
    Other,
}

/// A key press or release that is forwarded to the remote session.
#[derive(Clone, Copy, Debug, PartialEq, Eq, Structural)]
pub struct KeyTransition {
    pub key: Key,
    pub pressed: bool,
}

/// The modifier keys held while an input event was produced.
#[derive(Clone, Copy, Debug, PartialEq, Eq, Structural)]
pub struct Modifiers {
    pub alt: bool,
    pub ctrl: bool,
    pub shift: bool,
    pub mac_cmd: bool,
    pub command: bool,
}

/// The input events of the desktop UI toolkit that the keyboard logic reads.
#[derive(Clone, Debug, PartialEq, Eq)]
pub enum KeyboardEvent {
    Copy,
    Cut,
    Paste(String),
    Key { key: Key, physical_key: Option<Key>, pressed: bool, repeat: bool, modifiers: Modifiers },
    Text(String),
    Other,
}

/// The mathematical value of a [`KeyboardEvent`]: strings become character sequences.
pub ghost enum KeyboardEventView {
    Copy,
    Cut,
    Paste(Seq<char>),
    Key { key: Key, physical_key: Option<Key>, pressed: bool, repeat: bool, modifiers: Modifiers },
    Text(Seq<char>),
    Other,
}

impl View for KeyboardEvent {
    type V = KeyboardEventView;

    open spec fn view(&self) -> KeyboardEventView {
        match self {
            KeyboardEvent::Copy => KeyboardEventView::Copy,
            KeyboardEvent::Cut => KeyboardEventView::Cut,
            KeyboardEvent::Paste(s) => KeyboardEventView::Paste(s@),
            KeyboardEvent::Key { key, physical_key, pressed, repeat, modifiers } =>
                KeyboardEventView::Key {
                    key: *key,
                    physical_key: *physical_key,
                    pressed: *pressed,
                    repeat: *repeat,
                    modifiers: *modifiers,
                },
            KeyboardEvent::Text(s) => KeyboardEventView::Text(s@),
            KeyboardEvent::Other => KeyboardEventView::Other,
        }
    }
}

/// The PC/AT scancodes that RDP sends with the extended-key flag.
pub open spec fn spec_is_extended_scancode(scancode: i32) -> bool {
    scancode == 0x4B || scancode == 0x48 || scancode == 0x4D || scancode == 0x50
        || scancode == 0x47 || scancode == 0x4F || scancode == 0x49 || scancode == 0x51
        || scancode == 0x52 || scancode == 0x53 || scancode == 0x37 || scancode == 0x5D
}

/// Whether `scancode` belongs to the extended (E0-prefixed) key group.
pub fn is_extended_scancode(scancode: i32) -> (r: bool)
    ensures
        r == spec_is_extended_scancode(scancode),
{
    match scancode {
        0x4B | 0x48 | 0x4D | 0x50 | 0x47 | 0x4F | 0x49 | 0x51 | 0x52 | 0x53 | 0x37 | 0x5D => true,
        _ => false,
    }
}

/// The PC/AT scancode of a key and whether it is sent as an extended key.
pub open spec fn key_scancode(key: Key) -> Option<(i32, bool)> {
    match key {
        Key::Escape => Some((0x01, false)),
        Key::Tab => Some((0x0F, false)),
        Key::Backspace => Some((0x0E, false)),
        Key::Enter => Some((0x1C, false)),
        Key::Space => Some((0x39, false)),
        Key::Num0 => Some((0x0B, false)),
        Key::Num1 => Some((0x02, false)),
        Key::Num2 => Some((0x03, false)),
        Key::Num3 => Some((0x04, false)),
        Key::Num4 => Some((0x05, false)),
        Key::Num5 => Some((0x06, false)),
        Key::Num6 => Some((0x07, false)),
        Key::Num7 => Some((0x08, false)),
        Key::Num8 => Some((0x09, false)),
        Key::Num9 => Some((0x0A, false)),
        Key::A => Some((0x1E, false)),
        Key::B => Some((0x30, false)),
        Key::C => Some((0x2E, false)),
        Key::D => Some((0x20, false)),
        Key::E => Some((0x12, false)),
        Key::F => Some((0x21, false)),
        Key::G => Some((0x22, false)),
        Key::H => Some((0x23, false)),
        Key::I => Some((0x17, false)),
        Key::J => Some((0x24, false)),
        Key::K => Some((0x25, false)),
        Key::L => Some((0x26, false)),
        Key::M => Some((0x32, false)),
        Key::N => Some((0x31, false)),
        Key::O => Some((0x18, false)),
        Key::P => Some((0x19, false)),
        Key::Q => Some((0x10, false)),
        Key::R => Some((0x13, false)),
        Key::S => Some((0x1F, false)),
        Key::T => Some((0x14, false)),
        Key::U => Some((0x16, false)),
        Key::V => Some((0x2F, false)),
        Key::W => Some((0x11, false)),
        Key::X => Some((0x2D, false)),
        Key::Y => Some((0x15, false)),
        Key::Z => Some((0x2C, false)),
        Key::F1 => Some((0x3B, false)),
        Key::F2 => Some((0x3C, false)),
        Key::F3 => Some((0x3D, false)),
        Key::F4 => Some((0x3E, false)),
        Key::F5 => Some((0x3F, false)),
        Key::F6 => Some((0x40, false)),
        Key::F7 => Some((0x41, false)),
        Key::F8 => Some((0x42, false)),
        Key::F9 => Some((0x43, false)),
        Key::F10 => Some((0x44, false)),
        Key::F11 => Some((0x57, false)),
        Key::F12 => Some((0x58, false)),
        Key::ArrowLeft => Some((0x4B, true)),
        Key::ArrowUp => Some((0x48, true)),
        Key::ArrowRight => Some((0x4D, true)),
        Key::ArrowDown => Some((0x50, true)),
        Key::Home => Some((0x47, true)),
        Key::End => Some((0x4F, true)),
        Key::PageUp => Some((0x49, true)),
        Key::PageDown => Some((0x51, true)),
        Key::Insert => Some((0x52, true)),
        Key::Delete => Some((0x53, true)),
        Key::Minus => Some((0x0C, false)),
        Key::Equals | Key::Plus => Some((0x0D, false)),
        Key::OpenBracket => Some((0x1A, false)),
        Key::CloseBracket => Some((0x1B, false)),
        Key::Backslash | Key::Pipe => Some((0x2B, false)),
        Key::Semicolon | Key::Colon => Some((0x27, false)),
        Key::Quote => Some((0x28, false)),
        Key::Backtick => Some((0x29, false)),
        Key::Comma => Some((0x33, false)),
        Key::Period => Some((0x34, false)),
        Key::Slash | Key::Questionmark => Some((0x35, false)),
        Key::F13 => Some((0x64, false)),
        Key::F14 => Some((0x65, false)),
        Key::F15 => Some((0x66, false)),
        Key::F16 => Some((0x67, false)),
        Key::F17 => Some((0x68, false)),
        Key::F18 => Some((0x69, false)),
        Key::F19 => Some((0x6A, false)),
        Key::F20 => Some((0x6B, false)),
        Key::Other => None,
    }
}

/// Returns (scancode, is_extended_hint).
pub fn egui_key_to_scancode(key: Key) -> (r: Option<(i32, bool)>)
    ensures
        r == key_scancode(key),
{
    match key {
        Key::Escape => Some((0x01, false)),
        Key::Tab => Some((0x0F, false)),
        Key::Backspace => Some((0x0E, false)),
        Key::Enter => Some((0x1C, false)),
        Key::Space => Some((0x39, false)),
        Key::Num0 => Some((0x0B, false)),
        Key::Num1 => Some((0x02, false)),
        Key::Num2 => Some((0x03, false)),
        Key::Num3 => Some((0x04, false)),
        Key::Num4 => Some((0x05, false)),
        Key::Num5 => Some((0x06, false)),
        Key::Num6 => Some((0x07, false)),
        Key::Num7 => Some((0x08, false)),
        Key::Num8 => Some((0x09, false)),
        Key::Num9 => Some((0x0A, false)),
        Key::A => Some((0x1E, false)),
        Key::B => Some((0x30, false)),
        Key::C => Some((0x2E, false)),
        Key::D => Some((0x20, false)),
        Key::E => Some((0x12, false)),
        Key::F => Some((0x21, false)),
        Key::G => Some((0x22, false)),
        Key::H => Some((0x23, false)),
        Key::I => Some((0x17, false)),
        Key::J => Some((0x24, false)),
        Key::K => Some((0x25, false)),
        Key::L => Some((0x26, false)),
        Key::M => Some((0x32, false)),
        Key::N => Some((0x31, false)),
        Key::O => Some((0x18, false)),
        Key::P => Some((0x19, false)),
        Key::Q => Some((0x10, false)),
        Key::R => Some((0x13, false)),
        Key::S => Some((0x1F, false)),
        Key::T => Some((0x14, false)),
        Key::U => Some((0x16, false)),
        Key::V => Some((0x2F, false)),
        Key::W => Some((0x11, false)),
        Key::X => Some((0x2D, false)),
        Key::Y => Some((0x15, false)),
        Key::Z => Some((0x2C, false)),
        Key::F1 => Some((0x3B, false)),
        Key::F2 => Some((0x3C, false)),
        Key::F3 => Some((0x3D, false)),
        Key::F4 => Some((0x3E, false)),
        Key::F5 => Some((0x3F, false)),
        Key::F6 => Some((0x40, false)),
        Key::F7 => Some((0x41, false)),
        Key::F8 => Some((0x42, false)),
        Key::F9 => Some((0x43, false)),
        Key::F10 => Some((0x44, false)),
        Key::F11 => Some((0x57, false)),
        Key::F12 => Some((0x58, false)),
        Key::ArrowLeft => Some((0x4B, true)),
        Key::ArrowUp => Some((0x48, true)),
        Key::ArrowRight => Some((0x4D, true)),
        Key::ArrowDown => Some((0x50, true)),
        Key::Home => Some((0x47, true)),
        Key::End => Some((0x4F, true)),
        Key::PageUp => Some((0x49, true)),
        Key::PageDown => Some((0x51, true)),
        Key::Insert => Some((0x52, true)),
        Key::Delete => Some((0x53, true)),
        Key::Minus => Some((0x0C, false)),
        Key::Equals | Key::Plus => Some((0x0D, false)),
        Key::OpenBracket => Some((0x1A, false)),
        Key::CloseBracket => Some((0x1B, false)),
        Key::Backslash | Key::Pipe => Some((0x2B, false)),
        Key::Semicolon | Key::Colon => Some((0x27, false)),
        Key::Quote => Some((0x28, false)),
        Key::Backtick => Some((0x29, false)),
        Key::Comma => Some((0x33, false)),
        Key::Period => Some((0x34, false)),
        Key::Slash | Key::Questionmark => Some((0x35, false)),
        Key::F13 => Some((0x64, false)),
        Key::F14 => Some((0x65, false)),
        Key::F15 => Some((0x66, false)),
        Key::F16 => Some((0x67, false)),
        Key::F17 => Some((0x68, false)),
        Key::F18 => Some((0x69, false)),
        Key::F19 => Some((0x6A, false)),
        Key::F20 => Some((0x6B, false)),
        Key::Other => None,
    }
}

/// The extended-key hint of every mapped key agrees with the extended scancode group,
/// so no letter, digit or function key is ever sent as an extended key.
pub proof fn lemma_scancode_hint_matches_extended_group(key: Key)
    ensures
        key_scancode(key) matches Some((code, ext)) ==> ext == spec_is_extended_scancode(code),
{
}

/// The key that shares its keyboard position with `key`: the shifted-symbol keys
/// (`+`, `|`, `:`, `?`) are typed on the `=`, `\`, `;` and `/` keys.
pub open spec fn physical_key(key: Key) -> Key {
    match key {
        Key::Plus => Key::Equals,
        Key::Pipe => Key::Backslash,
        Key::Colon => Key::Semicolon,
        Key::Questionmark => Key::Slash,
        _ => key,
    }
}

/// The key at each make code of PC/AT scancode set 1 (US layout).
pub open spec fn scancode_key(code: i32) -> Option<Key> {
    match code {
        0x01 => Some(Key::Escape),
        0x02 => Some(Key::Num1),
        0x03 => Some(Key::Num2),
        0x04 => Some(Key::Num3),
        0x05 => Some(Key::Num4),
        0x06 => Some(Key::Num5),
        0x07 => Some(Key::Num6),
        0x08 => Some(Key::Num7),
        0x09 => Some(Key::Num8),
        0x0A => Some(Key::Num9),
        0x0B => Some(Key::Num0),
        0x0C => Some(Key::Minus),
        0x0D => Some(Key::Equals),
        0x0E => Some(Key::Backspace),
        0x0F => Some(Key::Tab),
        0x10 => Some(Key::Q),
        0x11 => Some(Key::W),
        0x12 => Some(Key::E),
        0x13 => Some(Key::R),
        0x14 => Some(Key::T),
        0x15 => Some(Key::Y),
        0x16 => Some(Key::U),
        0x17 => Some(Key::I),
        0x18 => Some(Key::O),
        0x19 => Some(Key::P),
        0x1A => Some(Key::OpenBracket),
        0x1B => Some(Key::CloseBracket),
        0x1C => Some(Key::Enter),
        0x1E => Some(Key::A),
        0x1F => Some(Key::S),
        0x20 => Some(Key::D),
        0x21 => Some(Key::F),
        0x22 => Some(Key::G),
        0x23 => Some(Key::H),
        0x24 => Some(Key::J),
        0x25 => Some(Key::K),
        0x26 => Some(Key::L),
        0x27 => Some(Key::Semicolon),
        0x28 => Some(Key::Quote),
        0x29 => Some(Key::Backtick),
        0x2B => Some(Key::Backslash),
        0x2C => Some(Key::Z),
        0x2D => Some(Key::X),
        0x2E => Some(Key::C),
        0x2F => Some(Key::V),
        0x30 => Some(Key::B),
        0x31 => Some(Key::N),
        0x32 => Some(Key::M),
        0x33 => Some(Key::Comma),
        0x34 => Some(Key::Period),
        0x35 => Some(Key::Slash),
        0x39 => Some(Key::Space),
        0x3B => Some(Key::F1),
        0x3C => Some(Key::F2),
        0x3D => Some(Key::F3),
        0x3E => Some(Key::F4),
        0x3F => Some(Key::F5),
        0x40 => Some(Key::F6),
        0x41 => Some(Key::F7),
        0x42 => Some(Key::F8),
        0x43 => Some(Key::F9),
        0x44 => Some(Key::F10),
        0x47 => Some(Key::Home),
        0x48 => Some(Key::ArrowUp),
        0x49 => Some(Key::PageUp),
        0x4B => Some(Key::ArrowLeft),
        0x4D => Some(Key::ArrowRight),
        0x4F => Some(Key::End),
        0x50 => Some(Key::ArrowDown),
        0x51 => Some(Key::PageDown),
        0x52 => Some(Key::Insert),
        0x53 => Some(Key::Delete),
        0x57 => Some(Key::F11),
        0x58 => Some(Key::F12),
        0x64 => Some(Key::F13),
        0x65 => Some(Key::F14),
        0x66 => Some(Key::F15),
        0x67 => Some(Key::F16),
        0x68 => Some(Key::F17),
        0x69 => Some(Key::F18),
        0x6A => Some(Key::F19),
        0x6B => Some(Key::F20),
        _ => None,
    }
}

/// Every mapped key is sent as the set-1 make code of its own keyboard position.
pub proof fn lemma_scancode_is_make_code_of_key(key: Key)
    ensures
        key_scancode(key) matches Some((code, _)) ==> scancode_key(code) == Some(physical_key(key)),
{
}

/// Two keys that are not on the same keyboard position never share a scancode.
pub proof fn lemma_distinct_keys_distinct_scancodes(a: Key, b: Key)
    requires
        key_scancode(a) is Some,
        key_scancode(b) is Some,
        physical_key(a) != physical_key(b),
    ensures
        (key_scancode(a)->0).0 != (key_scancode(b)->0).0,
{
    lemma_scancode_is_make_code_of_key(a);
    lemma_scancode_is_make_code_of_key(b);
}

/// The X11 keysym that a key types without modifiers, for the keys that VNC
/// sessions forward: the named keys, and the character of each printable key.
pub open spec fn key_keysym(key: Key) -> Option<u32> {
    match key {
        Key::Escape => Some(0xff1bu32),
        Key::Tab => Some(0xff09u32),
        Key::Backspace => Some(0xff08u32),
        Key::Enter => Some(0xff0du32),
        Key::Insert => Some(0xff63u32),
        Key::Delete => Some(0xffffu32),
        Key::Home => Some(0xff50u32),
        Key::End => Some(0xff57u32),
        Key::PageUp => Some(0xff55u32),
        Key::PageDown => Some(0xff56u32),
        Key::ArrowLeft => Some(0xff51u32),
        Key::ArrowUp => Some(0xff52u32),
        Key::ArrowRight => Some(0xff53u32),
        Key::ArrowDown => Some(0xff54u32),
        Key::F1 => Some(0xffbeu32),
        Key::F2 => Some(0xffbfu32),
        Key::F3 => Some(0xffc0u32),
        Key::F4 => Some(0xffc1u32),
        Key::F5 => Some(0xffc2u32),
        Key::F6 => Some(0xffc3u32),
        Key::F7 => Some(0xffc4u32),
        Key::F8 => Some(0xffc5u32),
        Key::F9 => Some(0xffc6u32),
        Key::F10 => Some(0xffc7u32),
        Key::F11 => Some(0xffc8u32),
        Key::F12 => Some(0xffc9u32),
        _ => match key_text_symbol(key, false) {
            Some(c) => Some(c as u32),
            None => None,
        },
    }
}

/// The scancode sent for a key is the one whose VNC keysym is the symbol that
/// key types without modifiers: RDP and VNC sessions receive the same key.
pub proof fn lemma_scancode_keysym_names_same_key(key: Key)
    ensures
        key_scancode(key) matches Some((code, _)) ==> spec_scancode_to_keysym(code as u32) == key_keysym(physical_key(key)),
{
}


/// The slot of a clipboard-shortcut key (C, X, V) in [`RemoteKeyboardState`].
pub open spec fn clip_index(key: Key) -> Option<int> {
    match key {
        Key::C => Some(0int),
        Key::X => Some(1int),
        Key::V => Some(2int),
        _ => None,
    }
}

/// The clipboard-shortcut key kept in slot `i`.
pub open spec fn clip_key(i: int) -> Key {
    if i == 0 {
        Key::C
    } else if i == 1 {
        Key::X
    } else {
        Key::V
    }
}

/// Emits a synthetic key-down for the clipboard key in slot `i` unless one is already held.
pub open spec fn spec_clipboard_key_down(down: Seq<bool>, i: int) -> (Seq<bool>, Seq<KeyTransition>) {
    if down[i] {
        (down, Seq::empty())
    } else {
        (down.update(i, true), seq![KeyTransition { key: clip_key(i), pressed: true }])
    }
}

/// The new clipboard-key state and the forwarded transitions for one input event.
pub open spec fn spec_transitions(down: Seq<bool>, event: KeyboardEventView) -> (Seq<bool>, Seq<KeyTransition>) {
    match event {
        KeyboardEventView::Copy => spec_clipboard_key_down(down, 0),
        KeyboardEventView::Cut => spec_clipboard_key_down(down, 1),
        KeyboardEventView::Paste(_) => spec_clipboard_key_down(down, 2),
        KeyboardEventView::Key { key, pressed, modifiers, .. } => {
            let t = KeyTransition { key, pressed };
            match clip_index(key) {
                None => (down, seq![t]),
                Some(i) => if pressed {
                    (down.update(i, true), seq![t])
                } else if modifiers.ctrl && !down[i] {
                    (down.update(i, false), seq![KeyTransition { key, pressed: true }, t])
                } else {
                    (down.update(i, false), seq![t])
                },
            }
        },
        _ => (down, Seq::empty()),
    }
}

/// Whether the remote side sees `key` held after the transitions `out`,
/// given that it saw it held (`held`) before them.
pub open spec fn remote_held_after(held: bool, out: Seq<KeyTransition>, key: Key) -> bool
    decreases out.len(),
{
    if out.len() == 0 {
        held
    } else if out.last().key == key {
        out.last().pressed
    } else {
        remote_held_after(held, out.drop_last(), key)
    }
}

/// Restores keyboard transitions that egui-winit replaces with clipboard events.
///
/// On Ctrl+C/X/V, egui-winit emits `Copy`/`Cut`/`Paste` instead of the key-down
/// event, but still emits the normal key-up event. `Paste` is not emitted at all
/// when the local clipboard is empty, so an unmatched Ctrl+V key-up also needs a
/// synthetic key-down before it is forwarded to the remote session.
pub struct RemoteKeyboardState {
    clipboard_keys_down: [bool; 3],
}

impl View for RemoteKeyboardState {
    type V = Seq<bool>;

    /// Whether C, X and V (in this order) are held on the remote side.
    closed spec fn view(&self) -> Seq<bool> {
        self.clipboard_keys_down@
    }
}

impl Default for RemoteKeyboardState {
    fn default() -> (r: Self)
        ensures
            r@ == seq![false, false, false],
    {
        RemoteKeyboardState::new()
    }
}

impl RemoteKeyboardState {
    /// A state in which no clipboard key is held.
    pub fn new() -> (r: Self)
        ensures
            r@ == seq![false, false, false],
    {
        let r = RemoteKeyboardState { clipboard_keys_down: [false, false, false] };
        assert(r@ =~= seq![false, false, false]);
        r
    }

    /// The view always has one slot per clipboard key.
    pub proof fn lemma_view_len(&self)
        ensures
            self@.len() == 3,
    {
    }

    /// The transitions to forward to the remote session for one input event.
    pub fn transitions(&mut self, event: &KeyboardEvent) -> (r: Vec<KeyTransition>)
        ensures
            (final(self)@, r@) == spec_transitions(old(self)@, event@),
    {
        match event {
            KeyboardEvent::Copy => self.clipboard_key_down(Key::C),
            KeyboardEvent::Cut => self.clipboard_key_down(Key::X),
            KeyboardEvent::Paste(_) => self.clipboard_key_down(Key::V),
            KeyboardEvent::Key { key, pressed, modifiers, .. } => {
                let transition = KeyTransition { key: *key, pressed: *pressed };
                let index = match clipboard_key_index(*key) {
                    Some(index) => index,
                    None => {
                        return vec![transition];
                    },
                };
                if *pressed {
                    self.clipboard_keys_down.set(index, true);
                    assert(self.clipboard_keys_down@ =~= old(self)@.update(index as int, true));
                    return vec![transition];
                }
                let saw_key_down = self.clipboard_keys_down[index];
                self.clipboard_keys_down.set(index, false);
                assert(self.clipboard_keys_down@ =~= old(self)@.update(index as int, false));
                if modifiers.ctrl && !saw_key_down {
                    // egui-winit suppresses Ctrl+V completely when the local clipboard is empty.
                    let r = vec![KeyTransition { key: *key, pressed: true }, transition];
                    assert(r@ =~= seq![KeyTransition { key: *key, pressed: true }, transition]);
                    r
                } else {
                    vec![transition]
                }
            },
            _ => Vec::new(),
        }
    }

    fn clipboard_key_down(&mut self, key: Key) -> (r: Vec<KeyTransition>)
        requires
            clip_index(key) is Some,
        ensures
            (final(self)@, r@) == spec_clipboard_key_down(old(self)@, clip_index(key)->0),
    {
        let index = match clipboard_key_index(key) {
            Some(index) => index,
            None => 0,
        };
        let was_down = self.clipboard_keys_down[index];
        self.clipboard_keys_down.set(index, true);
        if was_down {
            assert(self.clipboard_keys_down@ =~= old(self)@);
            Vec::new()
        } else {
            assert(self.clipboard_keys_down@ =~= old(self)@.update(index as int, true));
            vec![KeyTransition { key, pressed: true }]
        }
    }
}

fn clipboard_key_index(key: Key) -> (r: Option<usize>)
    ensures
        r matches Some(i) ==> clip_index(key) == Some(i as int) && i < 3,
        r is None <==> clip_index(key) is None,
{
    match key {
        Key::C => Some(0),
        Key::X => Some(1),
        Key::V => Some(2),
        _ => None,
    }
}

/// After any input event, the tracked state of each clipboard key equals whether
/// the remote session sees that key held, judged by the transitions forwarded to it.
pub proof fn lemma_transitions_track_remote_key_state(down: Seq<bool>, event: KeyboardEventView, i: int)
    requires
        down.len() == 3,
        0 <= i < 3,
    ensures
        ({
            let (new_down, out) = spec_transitions(down, event);
            &&& new_down.len() == 3
            &&& new_down[i] == remote_held_after(down[i], out, clip_key(i))
        }),
{
    let (new_down, out) = spec_transitions(down, event);
    reveal_with_fuel(remote_held_after, 3);
    assert(new_down.len() == 3);
    if out.len() == 2 {
        assert(out.drop_last().drop_last().len() == 0);
    }
}

/// The clipboard event that egui-winit emits in place of the key-down of the
/// clipboard key in slot `i`: Copy for C, Cut for X, Paste for V.
pub open spec fn is_clipboard_event_of(event: KeyboardEventView, i: int) -> bool {
    match event {
        KeyboardEventView::Copy => i == 0,
        KeyboardEventView::Cut => i == 1,
        KeyboardEventView::Paste(_) => i == 2,
        _ => false,
    }
}

/// A clipboard event never presses a key the remote session already holds:
/// while C, X or V is held (its key-down or an earlier clipboard event was
/// forwarded and no key-up since), its clipboard event forwards nothing and
/// leaves the state unchanged; otherwise it forwards exactly one key-down.
pub proof fn lemma_clipboard_event_never_presses_held_key(down: Seq<bool>, event: KeyboardEventView, i: int)
    requires
        down.len() == 3,
        0 <= i < 3,
        is_clipboard_event_of(event, i),
    ensures
        down[i] ==> spec_transitions(down, event) == (down, Seq::<KeyTransition>::empty()),
        !down[i] ==> spec_transitions(down, event) == (
            down.update(i, true),
            seq![KeyTransition { key: clip_key(i), pressed: true }],
        ),
{
}

/// The clipboard-key state after the given events, in order.
pub open spec fn run_transitions(down: Seq<bool>, events: Seq<KeyboardEventView>) -> Seq<bool>
    decreases events.len(),
{
    if events.len() == 0 {
        down
    } else {
        spec_transitions(run_transitions(down, events.drop_last()), events.last()).0
    }
}

/// The event presses the clipboard key in slot `i`: its key-down or its clipboard event.
pub open spec fn presses_clip_key(event: KeyboardEventView, i: int) -> bool {
    ||| is_clipboard_event_of(event, i)
    ||| (event matches KeyboardEventView::Key { key, pressed, .. } && pressed && key == clip_key(i))
}

/// The event is the key-up of the clipboard key in slot `i`.
pub open spec fn releases_clip_key(event: KeyboardEventView, i: int) -> bool {
    event matches KeyboardEventView::Key { key, pressed, .. } && !pressed && key == clip_key(i)
}

proof fn lemma_clip_index_of_slot(key: Key, i: int)
    requires
        0 <= i < 3,
    ensures
        clip_index(key) == Some(i) <==> key == clip_key(i),
{
}

/// One event keeps the state three slots long, holds the key in slot `i`
/// after it presses it, and keeps it held unless it releases it.
proof fn lemma_step_slot(down: Seq<bool>, event: KeyboardEventView, i: int)
    requires
        down.len() == 3,
        0 <= i < 3,
    ensures
        spec_transitions(down, event).0.len() == 3,
        presses_clip_key(event, i) ==> spec_transitions(down, event).0[i],
        down[i] && !releases_clip_key(event, i) ==> spec_transitions(down, event).0[i],
{
    lemma_clip_index_of_slot(Key::C, i);
    lemma_clip_index_of_slot(Key::X, i);
    lemma_clip_index_of_slot(Key::V, i);
    match event {
        KeyboardEventView::Key { key, .. } => {
            lemma_clip_index_of_slot(key, i);
        },
        _ => {},
    }
}

/// After a run of events in which the clipboard key of slot `i` was pressed
/// (by its key-down or its clipboard event) and not released since, the key
/// is held.
proof fn lemma_run_holds(down: Seq<bool>, events: Seq<KeyboardEventView>, i: int, j: int)
    requires
        down.len() == 3,
        0 <= i < 3,
        0 <= j < events.len(),
        presses_clip_key(events[j], i),
        forall|k: int| j < k < events.len() ==> !releases_clip_key(#[trigger] events[k], i),
    ensures
        run_transitions(down, events).len() == 3,
        run_transitions(down, events)[i],
    decreases events.len(),
{
    let prefix = events.drop_last();
    lemma_run_len(down, prefix);
    if j == events.len() - 1 {
        lemma_step_slot(run_transitions(down, prefix), events.last(), i);
    } else {
        assert forall|k: int| j < k < prefix.len() implies !releases_clip_key(#[trigger] prefix[k], i) by {
            assert(prefix[k] == events[k]);
        }
        assert(prefix[j] == events[j]);
        lemma_run_holds(down, prefix, i, j);
        assert(!releases_clip_key(events[events.len() - 1], i));
        lemma_step_slot(run_transitions(down, prefix), events.last(), i);
    }
}

proof fn lemma_run_len(down: Seq<bool>, events: Seq<KeyboardEventView>)
    requires
        down.len() == 3,
    ensures
        run_transitions(down, events).len() == 3,
    decreases events.len(),
{
    if events.len() > 0 {
        lemma_run_len(down, events.drop_last());
        lemma_step_slot(run_transitions(down, events.drop_last()), events.last(), 0);
    }
}

/// A clipboard event never yields a second key-down for a key the remote
/// session already holds: when, since the last key-up of C, X or V, its
/// key-down or its clipboard event has been forwarded, its clipboard event
/// forwards nothing and leaves the state unchanged.
pub proof fn lemma_clipboard_event_after_press_forwards_nothing(
    down: Seq<bool>,
    history: Seq<KeyboardEventView>,
    i: int,
    j: int,
    event: KeyboardEventView,
)
    requires
        down.len() == 3,
        0 <= i < 3,
        0 <= j < history.len(),
        presses_clip_key(history[j], i),
        forall|k: int| j < k < history.len() ==> !releases_clip_key(#[trigger] history[k], i),
        is_clipboard_event_of(event, i),
    ensures
        spec_transitions(run_transitions(down, history), event) == (
            run_transitions(down, history),
            Seq::<KeyTransition>::empty(),
        ),
{
    lemma_run_holds(down, history, i, j);
    lemma_clipboard_event_never_presses_held_key(run_transitions(down, history), event, i);
}

/// A Ctrl+C/X/V key-up is never forwarded unmatched: the remote session always
/// sees the key held immediately before the forwarded release.
pub proof fn lemma_ctrl_release_is_preceded_by_press(
    down: Seq<bool>,
    key: Key,
    physical_key: Option<Key>,
    repeat: bool,
    modifiers: Modifiers,
)
    requires
        down.len() == 3,
        clip_index(key) is Some,
        modifiers.ctrl,
    ensures
        ({
            let i = clip_index(key)->0;
            let event = KeyboardEventView::Key { key, physical_key, pressed: false, repeat, modifiers };
            let (new_down, out) = spec_transitions(down, event);
            &&& out.len() >= 1
            &&& out.last() == (KeyTransition { key, pressed: false })
            &&& remote_held_after(down[i], out.drop_last(), key)
            &&& !new_down[i]
        }),
{
    let i = clip_index(key)->0;
    let event = KeyboardEventView::Key { key, physical_key, pressed: false, repeat, modifiers };
    let (new_down, out) = spec_transitions(down, event);
    reveal_with_fuel(remote_held_after, 2);
    if out.len() == 2 {
        assert(out.drop_last().drop_last().len() == 0);
    }
}

/// The character that a printable key types, with or without Shift held.
pub open spec fn key_text_symbol(key: Key, shift: bool) -> Option<char> {
    match key {
        Key::A => Some(if shift { 'A' } else { 'a' }),
        Key::B => Some(if shift { 'B' } else { 'b' }),
        Key::C => Some(if shift { 'C' } else { 'c' }),
        Key::D => Some(if shift { 'D' } else { 'd' }),
        Key::E => Some(if shift { 'E' } else { 'e' }),
        Key::F => Some(if shift { 'F' } else { 'f' }),
        Key::G => Some(if shift { 'G' } else { 'g' }),
        Key::H => Some(if shift { 'H' } else { 'h' }),
        Key::I => Some(if shift { 'I' } else { 'i' }),
        Key::J => Some(if shift { 'J' } else { 'j' }),
        Key::K => Some(if shift { 'K' } else { 'k' }),
        Key::L => Some(if shift { 'L' } else { 'l' }),
        Key::M => Some(if shift { 'M' } else { 'm' }),
        Key::N => Some(if shift { 'N' } else { 'n' }),
        Key::O => Some(if shift { 'O' } else { 'o' }),
        Key::P => Some(if shift { 'P' } else { 'p' }),
        Key::Q => Some(if shift { 'Q' } else { 'q' }),
        Key::R => Some(if shift { 'R' } else { 'r' }),
        Key::S => Some(if shift { 'S' } else { 's' }),
        Key::T => Some(if shift { 'T' } else { 't' }),
        Key::U => Some(if shift { 'U' } else { 'u' }),
        Key::V => Some(if shift { 'V' } else { 'v' }),
        Key::W => Some(if shift { 'W' } else { 'w' }),
        Key::X => Some(if shift { 'X' } else { 'x' }),
        Key::Y => Some(if shift { 'Y' } else { 'y' }),
        Key::Z => Some(if shift { 'Z' } else { 'z' }),
        Key::Num1 => Some(if shift { '!' } else { '1' }),
        Key::Num2 => Some(if shift { '@' } else { '2' }),
        Key::Num3 => Some(if shift { '#' } else { '3' }),
        Key::Num4 => Some(if shift { '$' } else { '4' }),
        Key::Num5 => Some(if shift { '%' } else { '5' }),
        Key::Num6 => Some(if shift { '^' } else { '6' }),
        Key::Num7 => Some(if shift { '&' } else { '7' }),
        Key::Num8 => Some(if shift { '*' } else { '8' }),
        Key::Num9 => Some(if shift { '(' } else { '9' }),
        Key::Num0 => Some(if shift { ')' } else { '0' }),
        Key::Period => Some(if shift { '>' } else { '.' }),
        Key::Comma => Some(if shift { '<' } else { ',' }),
        Key::Minus => Some(if shift { '_' } else { '-' }),
        Key::Equals => Some(if shift { '+' } else { '=' }),
        Key::Plus => Some('+'),
        Key::Slash => Some(if shift { '?' } else { '/' }),
        Key::Questionmark => Some('?'),
        Key::Backslash => Some(if shift { '|' } else { '\\' }),
        Key::Pipe => Some('|'),
        Key::Semicolon => Some(if shift { ':' } else { ';' }),
        Key::Colon => Some(':'),
        Key::Quote => Some(if shift { '"' } else { '\'' }),
        Key::Backtick => Some(if shift { '~' } else { '`' }),
        Key::OpenBracket => Some(if shift { '{' } else { '[' }),
        Key::CloseBracket => Some(if shift { '}' } else { ']' }),
        Key::Space => Some(' '),
        _ => None,
    }
}

fn text_symbol(key: Key, shift: bool) -> (r: Option<char>)
    ensures
        r == key_text_symbol(key, shift),
{
    match key {
        Key::A => Some(if shift { 'A' } else { 'a' }),
        Key::B => Some(if shift { 'B' } else { 'b' }),
        Key::C => Some(if shift { 'C' } else { 'c' }),
        Key::D => Some(if shift { 'D' } else { 'd' }),
        Key::E => Some(if shift { 'E' } else { 'e' }),
        Key::F => Some(if shift { 'F' } else { 'f' }),
        Key::G => Some(if shift { 'G' } else { 'g' }),
        Key::H => Some(if shift { 'H' } else { 'h' }),
        Key::I => Some(if shift { 'I' } else { 'i' }),
        Key::J => Some(if shift { 'J' } else { 'j' }),
        Key::K => Some(if shift { 'K' } else { 'k' }),
        Key::L => Some(if shift { 'L' } else { 'l' }),
        Key::M => Some(if shift { 'M' } else { 'm' }),
        Key::N => Some(if shift { 'N' } else { 'n' }),
        Key::O => Some(if shift { 'O' } else { 'o' }),
        Key::P => Some(if shift { 'P' } else { 'p' }),
        Key::Q => Some(if shift { 'Q' } else { 'q' }),
        Key::R => Some(if shift { 'R' } else { 'r' }),
        Key::S => Some(if shift { 'S' } else { 's' }),
        Key::T => Some(if shift { 'T' } else { 't' }),
        Key::U => Some(if shift { 'U' } else { 'u' }),
        Key::V => Some(if shift { 'V' } else { 'v' }),
        Key::W => Some(if shift { 'W' } else { 'w' }),
        Key::X => Some(if shift { 'X' } else { 'x' }),
        Key::Y => Some(if shift { 'Y' } else { 'y' }),
        Key::Z => Some(if shift { 'Z' } else { 'z' }),
        Key::Num1 => Some(if shift { '!' } else { '1' }),
        Key::Num2 => Some(if shift { '@' } else { '2' }),
        Key::Num3 => Some(if shift { '#' } else { '3' }),
        Key::Num4 => Some(if shift { '$' } else { '4' }),
        Key::Num5 => Some(if shift { '%' } else { '5' }),
        Key::Num6 => Some(if shift { '^' } else { '6' }),
        Key::Num7 => Some(if shift { '&' } else { '7' }),
        Key::Num8 => Some(if shift { '*' } else { '8' }),
        Key::Num9 => Some(if shift { '(' } else { '9' }),
        Key::Num0 => Some(if shift { ')' } else { '0' }),
        Key::Period => Some(if shift { '>' } else { '.' }),
        Key::Comma => Some(if shift { '<' } else { ',' }),
        Key::Minus => Some(if shift { '_' } else { '-' }),
        Key::Equals => Some(if shift { '+' } else { '=' }),
        Key::Plus => Some('+'),
        Key::Slash => Some(if shift { '?' } else { '/' }),
        Key::Questionmark => Some('?'),
        Key::Backslash => Some(if shift { '|' } else { '\\' }),
        Key::Pipe => Some('|'),
        Key::Semicolon => Some(if shift { ':' } else { ';' }),
        Key::Colon => Some(':'),
        Key::Quote => Some(if shift { '"' } else { '\'' }),
        Key::Backtick => Some(if shift { '~' } else { '`' }),
        Key::OpenBracket => Some(if shift { '{' } else { '[' }),
        Key::CloseBracket => Some(if shift { '}' } else { ']' }),
        Key::Space => Some(' '),
        _ => None,
    }
}

/// Whether `events` already holds a text event of exactly the character `c`.
pub open spec fn has_text_of(events: Seq<KeyboardEventView>, c: char) -> bool {
    exists|j: int| 0 <= j < events.len() && events[j] == KeyboardEventView::Text(seq![c])
}

/// The character of the text event synthesized for `event`, if any: a key press
/// without Ctrl/Alt/Command whose character has no text event in `all`.
pub open spec fn synthesized_char(event: KeyboardEventView, all: Seq<KeyboardEventView>) -> Option<char> {
    match event {
        KeyboardEventView::Key { key, pressed, modifiers, .. } =>
            if pressed && !modifiers.ctrl && !modifiers.alt && !modifiers.command && !modifiers.mac_cmd {
                match key_text_symbol(key, modifiers.shift) {
                    Some(c) => if has_text_of(all, c) { None } else { Some(c) },
                    None => None,
                }
            } else {
                None
            },
        _ => None,
    }
}

/// The text events synthesized for the first `n` events of `all`, in order.
pub open spec fn synthesized_texts(all: Seq<KeyboardEventView>, n: int) -> Seq<KeyboardEventView>
    decreases n,
{
    if n <= 0 {
        Seq::empty()
    } else {
        let prev = synthesized_texts(all, n - 1);
        match synthesized_char(all[n - 1], all) {
            Some(c) => prev.push(KeyboardEventView::Text(seq![c])),
            None => prev,
        }
    }
}

/// The views of a list of events.
pub open spec fn event_views(events: Seq<KeyboardEvent>) -> Seq<KeyboardEventView> {
    events.map_values(|e: KeyboardEvent| e@)
}

fn has_text_event(events: &Vec<KeyboardEvent>, c: char) -> (r: bool)
    ensures
        r == has_text_of(event_views(events@), c),
{
    let mut i: usize = 0;
    while i < events.len()
        invariant
            i <= events.len(),
            forall|j: int| 0 <= j < i ==> event_views(events@)[j] != KeyboardEventView::Text(seq![c]),
        decreases events.len() - i,
    {
        if let KeyboardEvent::Text(t) = &events[i] {
            let cs = chars_of(t.as_str());
            if cs.len() == 1 && cs[0] == c {
                assert(cs@ =~= seq![c]);
                assert(event_views(events@)[i as int] == KeyboardEventView::Text(seq![c]));
                return true;
            }
            assert(t@ != seq![c]);
        }
        i = i + 1;
    }
    false
}

/// Synthesizes missing text events for printable keyboard input (letters,
/// numbers, shift symbols, punctuation and space) when the Linux windowing
/// backend fails to emit character text for key presses.
pub fn ensure_text_events_for_keyboard_input(events: &mut Vec<KeyboardEvent>)
    ensures
        event_views(final(events)@) == event_views(old(events)@) + synthesized_texts(
            event_views(old(events)@),
            old(events)@.len() as int,
        ),
{
    let ghost all = event_views(events@);
    let mut synthetic: Vec<KeyboardEvent> = Vec::new();
    let mut i: usize = 0;
    while i < events.len()
        invariant
            i <= events.len(),
            events@ == old(events)@,
            all == event_views(events@),
            event_views(synthetic@) == synthesized_texts(all, i as int),
        decreases events.len() - i,
    {
        if let KeyboardEvent::Key { key, pressed, modifiers, .. } = &events[i] {
            if *pressed && !modifiers.ctrl && !modifiers.alt && !modifiers.command && !modifiers.mac_cmd {
                if let Some(symbol) = text_symbol(*key, modifiers.shift) {
                    if !has_text_event(events, symbol) {
                        let mut text = String::new();
                        push_char(&mut text, symbol);
                        assert(text@ =~= seq![symbol]);
                        synthetic.push(KeyboardEvent::Text(text));
                        assert(event_views(synthetic@) =~= synthesized_texts(all, i as int + 1));
                    } else {
                        assert(event_views(synthetic@) =~= synthesized_texts(all, i as int + 1));
                    }
                } else {
                    assert(event_views(synthetic@) =~= synthesized_texts(all, i as int + 1));
                }
            } else {
                assert(event_views(synthetic@) =~= synthesized_texts(all, i as int + 1));
            }
        } else {
            assert(event_views(synthetic@) =~= synthesized_texts(all, i as int + 1));
        }
        i = i + 1;
    }
    let ghost before = events@;
    events.append(&mut synthetic);
    assert(event_views(events@) =~= event_views(before) + synthesized_texts(all, before.len() as int));
}

} // verus!
