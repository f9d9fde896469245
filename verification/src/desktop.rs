//! Decisions of the desktop client's tabs: connection state, tab titles, the
//! values a connection starts with, cursor shapes and keyboard shortcuts.

use vstd::prelude::*;

use crate::config::{Prefs, PrefsView};
use crate::keys::{Key, Modifiers};
use crate::numbers::{parse_i32, push_decimal, spec_decimal, spec_parse_i32};
use crate::text::{chars_of, is_text, spec_trim, spec_trim_set, string_from_chars, trim, trim_set, CharSet};
use crate::config::push_str;

verus! {

/// The connection state of a tab, as the session callbacks report it.
#[derive(Clone, Copy, Debug, PartialEq, Eq, Structural)]
pub enum ConnectionState {
    Idle,
    Connecting,
    Connected,
    Failed,
}

impl ConnectionState {
    /// The state of a callback state code: 1 connecting, 2 connected, 3 failed, else idle.
    pub open spec fn spec_from_code(state: i32) -> ConnectionState {
        if state == 1 {
            ConnectionState::Connecting
        } else if state == 2 {
            ConnectionState::Connected
        } else if state == 3 {
            ConnectionState::Failed
        } else {
            ConnectionState::Idle
        }
    }

    pub fn from_code(state: i32) -> (r: ConnectionState)
        ensures
            r == Self::spec_from_code(state),
    {
        match state {
            1 => ConnectionState::Connecting,
            2 => ConnectionState::Connected,
            3 => ConnectionState::Failed,
            _ => ConnectionState::Idle,
        }
    }

    pub open spec fn spec_label(self) -> Seq<char> {
        match self {
            ConnectionState::Idle => "Disconnected"@,
            ConnectionState::Connecting => "Connecting\u{2026}"@,
            ConnectionState::Connected => "Connected"@,
            ConnectionState::Failed => "Failed"@,
        }
    }

    pub fn label(self) -> (r: &'static str)
        ensures
            r@ == self.spec_label(),
    {
        match self {
            ConnectionState::Idle => "Disconnected",
            ConnectionState::Connecting => "Connecting\u{2026}",
            ConnectionState::Connected => "Connected",
            ConnectionState::Failed => "Failed",
        }
    }

    /// The status colour (red, green, blue): dim text, warning, success, danger.
    pub open spec fn spec_color(self) -> (u8, u8, u8) {
        match self {
            ConnectionState::Idle => (0xA0, 0xA0, 0xA0),
            ConnectionState::Connecting => (0xF5, 0xC2, 0x11),
            ConnectionState::Connected => (0x2E, 0xC2, 0x7E),
            ConnectionState::Failed => (0xE0, 0x1B, 0x24),
        }
    }

    pub fn color(self) -> (r: (u8, u8, u8))
        ensures
            r == self.spec_color(),
    {
        match self {
            ConnectionState::Idle => (0xA0, 0xA0, 0xA0),
            ConnectionState::Connecting => (0xF5, 0xC2, 0x11),
            ConnectionState::Connected => (0x2E, 0xC2, 0x7E),
            ConnectionState::Failed => (0xE0, 0x1B, 0x24),
        }
    }

    /// A tab is busy while its session is connecting or connected.
    pub open spec fn spec_is_busy(self) -> bool {
        self == ConnectionState::Connecting || self == ConnectionState::Connected
    }

    pub fn is_busy(self) -> (r: bool)
        ensures
            r == self.spec_is_busy(),
    {
        match self {
            ConnectionState::Connecting | ConnectionState::Connected => true,
            _ => false,
        }
    }

    /// A file can be opened into a tab that is idle or failed.
    pub open spec fn spec_can_open_file(self) -> bool {
        self == ConnectionState::Idle || self == ConnectionState::Failed
    }

    pub fn can_open_file(self) -> (r: bool)
        ensures
            r == self.spec_can_open_file(),
    {
        match self {
            ConnectionState::Idle | ConnectionState::Failed => true,
            _ => false,
        }
    }
}

/// A tab can connect when a host is entered and it is idle or failed.
pub open spec fn spec_can_connect(prefs: PrefsView, state: ConnectionState) -> bool {
    spec_trim(prefs.host).len() != 0 && state.spec_can_open_file()
}

pub fn can_connect(prefs: &Prefs, state: ConnectionState) -> (r: bool)
    ensures
        r == spec_can_connect(prefs@, state),
{
    let h = chars_of(prefs.host.as_str());
    let host = trim(&h);
    host.len() != 0 && state.can_open_file()
}

/// The title of a tab: "New connection" without a host, else the endpoint,
/// marked "… " while connecting and "! " after a failure.
pub open spec fn spec_tab_title(prefs: Prefs, state: ConnectionState) -> Seq<char> {
    if spec_trim(prefs.host@).len() == 0 {
        "New connection"@
    } else {
        let label = prefs.spec_endpoint_label();
        match state {
            ConnectionState::Connecting => "\u{2026} "@ + label,
            ConnectionState::Failed => "! "@ + label,
            _ => label,
        }
    }
}

pub fn tab_title(prefs: &Prefs, state: ConnectionState) -> (r: String)
    ensures
        r@ == spec_tab_title(*prefs, state),
{
    let h = chars_of(prefs.host.as_str());
    let host = trim(&h);
    if host.len() == 0 {
        return String::from_str("New connection");
    }
    let label = prefs.endpoint_label();
    match state {
        ConnectionState::Connecting => {
            let mut out: Vec<char> = Vec::new();
            push_str(&mut out, "\u{2026} ");
            push_str(&mut out, label.as_str());
            string_from_chars(&out)
        },
        ConnectionState::Failed => {
            let mut out: Vec<char> = Vec::new();
            push_str(&mut out, "! ");
            push_str(&mut out, label.as_str());
            string_from_chars(&out)
        },
        _ => label,
    }
}

/// The values a connection is started with.
#[derive(Clone, Debug, PartialEq, Eq)]
pub struct ConnectRequest {
    pub host: String,
    pub port: i32,
    pub username: String,
    pub password: String,
    pub domain: String,
    pub mode: String,
    pub width: i32,
    pub height: i32,
    pub endpoint: String,
}

pub open spec fn clamp(v: int, lo: int, hi: int) -> int {
    if v < lo {
        lo
    } else if v > hi {
        hi
    } else {
        v
    }
}

/// The port of a form: its number, else the protocol's default (5900 for a mode of exactly "VNC").
pub open spec fn spec_connect_port(p: PrefsView) -> i32 {
    match spec_parse_i32(p.port) {
        Some(n) => n,
        None => if p.mode == "VNC"@ {
            5900
        } else {
            3389
        },
    }
}

/// The requested desktop width: the form's number (1920 if none), within 640..=7680.
pub open spec fn spec_connect_width(p: PrefsView) -> i32 {
    clamp(
        match spec_parse_i32(p.width) {
            Some(n) => n as int,
            None => 1920,
        },
        640,
        7680,
    ) as i32
}

/// The requested desktop height: the form's number (1080 if none), within 480..=4320.
pub open spec fn spec_connect_height(p: PrefsView) -> i32 {
    clamp(
        match spec_parse_i32(p.height) {
            Some(n) => n as int,
            None => 1080,
        },
        480,
        4320,
    ) as i32
}

fn clamp_i32(v: i32, lo: i32, hi: i32) -> (r: i32)
    requires
        lo <= hi,
    ensures
        r == clamp(v as int, lo as int, hi as int),
{
    if v < lo {
        lo
    } else if v > hi {
        hi
    } else {
        v
    }
}

/// The connection parameters of a form: trimmed host, user, domain and mode, the
/// password without surrounding line breaks, the port and the clamped desktop size.
pub fn connect_request(prefs: &Prefs) -> (r: ConnectRequest)
    ensures
        r.host@ == spec_trim(prefs.host@),
        r.port == spec_connect_port(prefs@),
        r.username@ == spec_trim(prefs.username@),
        r.password@ == spec_trim_set(prefs.password@, CharSet::LineBreak),
        r.domain@ == spec_trim(prefs.domain@),
        r.mode@ == spec_trim(prefs.mode@),
        r.width == spec_connect_width(prefs@),
        r.height == spec_connect_height(prefs@),
        r.endpoint@ == prefs.spec_endpoint_label(),
{
    let mode_chars = chars_of(prefs.mode.as_str());
    let port_chars = chars_of(prefs.port.as_str());
    let port = match parse_i32(&port_chars) {
        Some(n) => n,
        None => if is_text(&mode_chars, "VNC") {
            5900
        } else {
            3389
        },
    };
    let wc = chars_of(prefs.width.as_str());
    let width = clamp_i32(
        match parse_i32(&wc) {
            Some(n) => n,
            None => 1920,
        },
        640,
        7680,
    );
    let hc = chars_of(prefs.height.as_str());
    let height = clamp_i32(
        match parse_i32(&hc) {
            Some(n) => n,
            None => 1080,
        },
        480,
        4320,
    );
    let h = chars_of(prefs.host.as_str());
    let u = chars_of(prefs.username.as_str());
    let pw = chars_of(prefs.password.as_str());
    let d = chars_of(prefs.domain.as_str());
    ConnectRequest {
        host: string_from_chars(&trim(&h)),
        port,
        username: string_from_chars(&trim(&u)),
        password: string_from_chars(&trim_set(&pw, CharSet::LineBreak)),
        domain: string_from_chars(&trim(&d)),
        mode: string_from_chars(&trim(&mode_chars)),
        width,
        height,
        endpoint: prefs.endpoint_label(),
    }
}

/// The window title: the endpoint and protocol of a connected active tab,
/// else the number of open tabs when there are several.
pub open spec fn spec_window_title(prefs: Prefs, state: ConnectionState, tab_count: nat) -> Seq<char> {
    if state == ConnectionState::Connected {
        prefs.spec_endpoint_label() + " \u{2014} "@ + prefs.mode@ + " \u{2014} Rust RDP VNC"@
    } else if tab_count > 1 {
        "Rust RDP VNC ("@ + spec_decimal(tab_count) + " tabs)"@
    } else {
        "Rust RDP VNC"@
    }
}

pub fn window_title(prefs: &Prefs, state: ConnectionState, tab_count: usize) -> (r: String)
    ensures
        r@ == spec_window_title(*prefs, state, tab_count as nat),
{
    if state == ConnectionState::Connected {
        let label = prefs.endpoint_label();
        let mut out: Vec<char> = Vec::new();
        push_str(&mut out, label.as_str());
        push_str(&mut out, " \u{2014} ");
        push_str(&mut out, prefs.mode.as_str());
        push_str(&mut out, " \u{2014} Rust RDP VNC");
        string_from_chars(&out)
    } else if tab_count > 1 {
        let mut out: Vec<char> = Vec::new();
        push_str(&mut out, "Rust RDP VNC (");
        push_decimal(&mut out, tab_count as u64);
        push_str(&mut out, " tabs)");
        string_from_chars(&out)
    } else {
        String::from_str("Rust RDP VNC")
    }
}

/// How the close-tab confirmation describes a busy tab.
pub open spec fn spec_close_confirm_label(state: ConnectionState) -> Seq<char> {
    match state {
        ConnectionState::Connecting => "still connecting"@,
        ConnectionState::Connected => "connected"@,
        _ => "active"@,
    }
}

pub fn close_confirm_label(state: ConnectionState) -> (r: &'static str)
    ensures
        r@ == spec_close_confirm_label(state),
{
    match state {
        ConnectionState::Connecting => "still connecting",
        ConnectionState::Connected => "connected",
        _ => "active",
    }
}

/// The port after switching the form to `mode`: a protocol's default port
/// follows the switch, any other port is kept.
pub open spec fn spec_port_after_switch(port: Seq<char>, mode: Seq<char>) -> Seq<char> {
    if mode == "VNC"@ && port == "3389"@ {
        "5900"@
    } else if mode == "RDP"@ && port == "5900"@ {
        "3389"@
    } else {
        port
    }
}

impl Prefs {
    /// Switches the form to protocol `mode` (the protocol selector of the
    /// connection panel).
    pub fn select_protocol(&mut self, mode: &str)
        ensures
            final(self)@ == (PrefsView {
                mode: mode@,
                port: spec_port_after_switch(old(self).port@, mode@),
                ..old(self)@
            }),
    {
        let m = chars_of(mode);
        let port = chars_of(self.port.as_str());
        if is_text(&m, "VNC") && is_text(&port, "3389") {
            self.port = String::from_str("5900");
        } else if is_text(&m, "RDP") && is_text(&port, "5900") {
            self.port = String::from_str("3389");
        }
        self.mode = String::from_str(mode);
    }
}

/// The mouse cursor shapes the remote session can request.
#[derive(Clone, Copy, Debug, PartialEq, Eq, Structural)]
pub enum CursorShape {
    Default,
    Hidden,
    Text,
    PointingHand,
    ResizeNwSe,
    ResizeNeSw,
    ResizeEast,
    ResizeNorth,
    Wait,
    Crosshair,
    Move,
    NotAllowed,
    Grab,
    Grabbing,
    Help,
    Progress,
}

/// The cursor shape of a cursor type code; unknown codes show the default arrow.
pub open spec fn spec_cursor_shape(cursor_type: i32) -> CursorShape {
    if cursor_type == 1 {
        CursorShape::Hidden
    } else if cursor_type == 2 {
        CursorShape::Text
    } else if cursor_type == 3 {
        CursorShape::PointingHand
    } else if cursor_type == 4 {
        CursorShape::ResizeNwSe
    } else if cursor_type == 5 {
        CursorShape::ResizeNeSw
    } else if cursor_type == 6 {
        CursorShape::ResizeEast
    } else if cursor_type == 7 {
        CursorShape::ResizeNorth
    } else if cursor_type == 8 {
        CursorShape::Wait
    } else if cursor_type == 9 {
        CursorShape::Crosshair
    } else if cursor_type == 10 {
        CursorShape::Move
    } else if cursor_type == 11 {
        CursorShape::NotAllowed
    } else if cursor_type == 12 {
        CursorShape::Grab
    } else if cursor_type == 13 {
        CursorShape::Grabbing
    } else if cursor_type == 14 {
        CursorShape::Help
    } else if cursor_type == 15 {
        CursorShape::Progress
    } else {
        CursorShape::Default
    }
}

pub fn cursor_shape(cursor_type: i32) -> (r: CursorShape)
    ensures
        r == spec_cursor_shape(cursor_type),
{
    match cursor_type {
        0 => CursorShape::Default,
        1 => CursorShape::Hidden,
        2 => CursorShape::Text,
        3 => CursorShape::PointingHand,
        4 => CursorShape::ResizeNwSe,
        5 => CursorShape::ResizeNeSw,
        6 => CursorShape::ResizeEast,
        7 => CursorShape::ResizeNorth,
        8 => CursorShape::Wait,
        9 => CursorShape::Crosshair,
        10 => CursorShape::Move,
        11 => CursorShape::NotAllowed,
        12 => CursorShape::Grab,
        13 => CursorShape::Grabbing,
        14 => CursorShape::Help,
        15 => CursorShape::Progress,
        _ => CursorShape::Default,
    }
}

/// The application shortcuts pressed in one frame (Ctrl without Alt).
#[derive(Clone, Copy, Debug, PartialEq, Eq, Structural)]
pub struct Shortcuts {
    pub connect: bool,
    pub disconnect: bool,
    pub quit: bool,
    pub save: bool,
    pub open: bool,
    pub new_tab: bool,
    pub close_tab: bool,
    pub zoom_in: bool,
    pub zoom_out: bool,
}

/// The shortcuts of one frame: Ctrl (without Alt) with Enter, D, Q, S, O, T, W,
/// Plus or Equals, and Minus; none while the remote view owns the keyboard.
pub open spec fn spec_shortcuts(keyboard_grabbed: bool, modifiers: Modifiers, pressed: Seq<Key>) -> Shortcuts {
    let on = !keyboard_grabbed && modifiers.ctrl && !modifiers.alt;
    Shortcuts {
        connect: on && pressed.contains(Key::Enter),
        disconnect: on && pressed.contains(Key::D),
        quit: on && pressed.contains(Key::Q),
        save: on && pressed.contains(Key::S),
        open: on && pressed.contains(Key::O),
        new_tab: on && pressed.contains(Key::T),
        close_tab: on && pressed.contains(Key::W),
        zoom_in: on && (pressed.contains(Key::Plus) || pressed.contains(Key::Equals)),
        zoom_out: on && pressed.contains(Key::Minus),
    }
}

fn key_pressed(pressed: &[Key], key: Key) -> (r: bool)
    ensures
        r == pressed@.contains(key),
{
    let mut i: usize = 0;
    while i < pressed.len()
        invariant
            i <= pressed@.len(),
            forall|j: int| 0 <= j < i ==> pressed@[j] != key,
        decreases pressed.len() - i,
    {
        if pressed[i] == key {
            return true;
        }
        i = i + 1;
    }
    false
}

/// The application shortcuts triggered by the keys pressed this frame.
pub fn handle_shortcuts(keyboard_grabbed: bool, modifiers: Modifiers, pressed: &[Key]) -> (r: Shortcuts)
    ensures
        r == spec_shortcuts(keyboard_grabbed, modifiers, pressed@),
{
    let on = !keyboard_grabbed && modifiers.ctrl && !modifiers.alt;
    Shortcuts {
        connect: on && key_pressed(pressed, Key::Enter),
        disconnect: on && key_pressed(pressed, Key::D),
        quit: on && key_pressed(pressed, Key::Q),
        save: on && key_pressed(pressed, Key::S),
        open: on && key_pressed(pressed, Key::O),
        new_tab: on && key_pressed(pressed, Key::T),
        close_tab: on && key_pressed(pressed, Key::W),
        zoom_in: on && (key_pressed(pressed, Key::Plus) || key_pressed(pressed, Key::Equals)),
        zoom_out: on && key_pressed(pressed, Key::Minus),
    }
}

} // verus!
