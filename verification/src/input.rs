//! Construction of the protocol input events (RDP fast-path and VNC RFB)
//! that mouse, wheel and keyboard actions turn into.

use vstd::prelude::*;

verus! {

/// RDP pointer flag: the pointer moved.
pub const PTR_MOVE: u16 = 0x0800;
/// RDP pointer flag: a button went down (without it, the button went up).
pub const PTR_DOWN: u16 = 0x8000;
/// RDP pointer flag: the left button.
pub const PTR_LEFT_BUTTON: u16 = 0x1000;
/// RDP pointer flag: the right button.
pub const PTR_RIGHT_BUTTON: u16 = 0x2000;
/// RDP pointer flag: a vertical wheel rotation.
pub const PTR_VERTICAL_WHEEL: u16 = 0x0200;
/// RDP keyboard flag: the key was released.
pub const KBD_RELEASE: u8 = 0x01;
/// RDP keyboard flag: the scancode is an extended (E0) scancode.
pub const KBD_EXTENDED: u8 = 0x02;
/// Windows wheel delta of one notch.
pub const WHEEL_DELTA: u32 = 120;
/// Most wheel PDUs emitted for one wheel action.
pub const MAX_WHEEL_PDUS: u32 = 24;

/// An RDP fast-path input event.
#[derive(Clone, Copy, Debug, PartialEq, Eq, Structural)]
pub enum RdpInputEvent {
    Mouse { flags: u16, wheel_rotation_units: i16, x: u16, y: u16 },
    Keyboard { flags: u8, code: u8 },
    UnicodeKeyboard { flags: u8, code: u16 },
}

/// A VNC (RFB) client input event.
#[derive(Clone, Copy, Debug, PartialEq, Eq, Structural)]
pub enum VncInputEvent {
    Pointer { x: u16, y: u16, buttons: u8 },
    Key { keysym: u32, down: bool },
}

/// RDP pointer flags of a mouse action:
/// 0 = move, 1 = left down, 2 = left up, 3 = right down, 4 = right up; others move.
pub open spec fn spec_rdp_pointer_flags(action: i32) -> u16 {
    if action == 1 {
        (PTR_DOWN | PTR_LEFT_BUTTON) as u16
    } else if action == 2 {
        PTR_LEFT_BUTTON
    } else if action == 3 {
        (PTR_DOWN | PTR_RIGHT_BUTTON) as u16
    } else if action == 4 {
        PTR_RIGHT_BUTTON
    } else {
        PTR_MOVE
    }
}

pub fn rdp_pointer_flags(action: i32) -> (r: u16)
    ensures
        r == spec_rdp_pointer_flags(action),
{
    match action {
        0 => PTR_MOVE,
        1 => PTR_DOWN | PTR_LEFT_BUTTON,
        2 => PTR_LEFT_BUTTON,
        3 => PTR_DOWN | PTR_RIGHT_BUTTON,
        4 => PTR_RIGHT_BUTTON,
        _ => PTR_MOVE,
    }
}

/// The VNC button mask after a mouse action: bit 0 is the left button, bit 2 the right one.
pub open spec fn spec_vnc_button_mask(mask: u8, action: i32) -> u8 {
    if action == 1 {
        mask | 1
    } else if action == 2 {
        mask & !1u8
    } else if action == 3 {
        mask | 4
    } else if action == 4 {
        mask & !4u8
    } else {
        mask
    }
}

pub fn vnc_button_mask(mask: u8, action: i32) -> (r: u8)
    ensures
        r == spec_vnc_button_mask(mask, action),
{
    match action {
        1 => mask | 1,
        2 => mask & !1u8,
        3 => mask | 4,
        4 => mask & !4u8,
        _ => mask,
    }
}

/// The button flags of a mouse action: actions 1 and 2 (left down, left up)
/// carry the left-button flag, actions 3 and 4 (right down, right up) the
/// right-button flag, the two presses (1 and 3) the down flag, and every other
/// action is a plain move with no button flag.
pub proof fn lemma_pointer_flags_name_the_button(action: i32)
    ensures
        spec_rdp_pointer_flags(action) & PTR_LEFT_BUTTON != 0 <==> (action == 1 || action == 2),
        spec_rdp_pointer_flags(action) & PTR_RIGHT_BUTTON != 0 <==> (action == 3 || action == 4),
        spec_rdp_pointer_flags(action) & PTR_DOWN != 0 <==> (action == 1 || action == 3),
        spec_rdp_pointer_flags(action) & PTR_MOVE != 0 <==> !(1 <= action <= 4),
{
    assert(0x9000u16 & 0x1000u16 != 0 && 0x9000u16 & 0x2000u16 == 0 && 0x9000u16 & 0x8000u16 != 0 && 0x9000u16 & 0x0800u16 == 0) by (bit_vector);
    assert(0x1000u16 & 0x1000u16 != 0 && 0x1000u16 & 0x2000u16 == 0 && 0x1000u16 & 0x8000u16 == 0 && 0x1000u16 & 0x0800u16 == 0) by (bit_vector);
    assert(0xA000u16 & 0x1000u16 == 0 && 0xA000u16 & 0x2000u16 != 0 && 0xA000u16 & 0x8000u16 != 0 && 0xA000u16 & 0x0800u16 == 0) by (bit_vector);
    assert(0x2000u16 & 0x1000u16 == 0 && 0x2000u16 & 0x2000u16 != 0 && 0x2000u16 & 0x8000u16 == 0 && 0x2000u16 & 0x0800u16 == 0) by (bit_vector);
    assert(0x0800u16 & 0x1000u16 == 0 && 0x0800u16 & 0x2000u16 == 0 && 0x0800u16 & 0x8000u16 == 0 && 0x0800u16 & 0x0800u16 != 0) by (bit_vector);
    assert((0x8000u16 | 0x1000u16) == 0x9000u16 && (0x8000u16 | 0x2000u16) == 0xA000u16) by (bit_vector);
}

/// RDP and VNC sessions press and release the same button for a mouse action:
/// where the RDP flags name the left (right) button, the VNC mask's bit 0
/// (bit 2) ends set exactly when the RDP flags say down, and its other bits
/// stay; an action without a button flag leaves the VNC mask unchanged.
pub proof fn lemma_pointer_buttons_agree_across_protocols(mask: u8, action: i32)
    ensures
        spec_rdp_pointer_flags(action) & PTR_LEFT_BUTTON != 0 ==> {
            &&& (spec_vnc_button_mask(mask, action) & 1 != 0) == (spec_rdp_pointer_flags(action) & PTR_DOWN != 0)
            &&& spec_vnc_button_mask(mask, action) & !1u8 == mask & !1u8
        },
        spec_rdp_pointer_flags(action) & PTR_RIGHT_BUTTON != 0 ==> {
            &&& (spec_vnc_button_mask(mask, action) & 4 != 0) == (spec_rdp_pointer_flags(action) & PTR_DOWN != 0)
            &&& spec_vnc_button_mask(mask, action) & !4u8 == mask & !4u8
        },
        spec_rdp_pointer_flags(action) & (PTR_LEFT_BUTTON | PTR_RIGHT_BUTTON) == 0 ==> spec_vnc_button_mask(mask, action)
            == mask,
{
    lemma_pointer_flags_name_the_button(action);
    assert((mask | 1) & 1 != 0 && (mask | 1) & !1u8 == mask & !1u8) by (bit_vector);
    assert((mask & !1u8) & 1 == 0 && (mask & !1u8) & !1u8 == mask & !1u8) by (bit_vector);
    assert((mask | 4) & 4 != 0 && (mask | 4) & !4u8 == mask & !4u8) by (bit_vector);
    assert((mask & !4u8) & 4 == 0 && (mask & !4u8) & !4u8 == mask & !4u8) by (bit_vector);
    assert(forall|f: u16| f & 0x1000u16 == 0 && f & 0x2000u16 == 0 ==> #[trigger] (f & (0x1000u16 | 0x2000u16)) == 0) by (bit_vector);
    assert(forall|f: u16| #[trigger] (f & (0x1000u16 | 0x2000u16)) == 0 ==> f & 0x1000u16 == 0 && f & 0x2000u16 == 0) by (bit_vector);
}

/// The magnitude of a wheel delta.
pub open spec fn abs_units(units: i32) -> int {
    if units < 0 {
        -units
    } else {
        units as int
    }
}

pub fn unsigned_abs(units: i32) -> (r: u32)
    ensures
        r == abs_units(units),
{
    if units < 0 {
        (-(units as i64)) as u32
    } else {
        units as u32
    }
}

/// The number of wheel PDUs an RDP wheel action of `abs` units is split into.
pub open spec fn rdp_wheel_pdu_count(abs: int) -> int {
    let notches = (abs + 119) / 120;
    if notches > 24 {
        24
    } else {
        notches
    }
}

/// The rotation carried by the `k`-th RDP wheel PDU (at most one notch, 120 units).
pub open spec fn rdp_wheel_chunk(abs: int, k: int) -> int {
    if abs - 120 * k > 120 {
        120
    } else {
        abs - 120 * k
    }
}

/// The rotation field of the `k`-th RDP wheel PDU: the encoder puts `n as u8` in the
/// low byte and marks negative `n` as a downward rotation, so down is `chunk - 256`.
pub open spec fn rdp_wheel_field(units: i32, k: int) -> int {
    let chunk = rdp_wheel_chunk(abs_units(units), k);
    if units < 0 {
        chunk - 256
    } else {
        chunk
    }
}

/// The RDP events of a vertical wheel action: a pointer move, then one wheel PDU per notch.
pub open spec fn spec_rdp_wheel_events(x: i32, y: i32, units: i32) -> Seq<RdpInputEvent> {
    Seq::new(
        (1 + rdp_wheel_pdu_count(abs_units(units))) as nat,
        |i: int|
            if i == 0 {
                RdpInputEvent::Mouse { flags: PTR_MOVE, wheel_rotation_units: 0, x: x as u16, y: y as u16 }
            } else {
                RdpInputEvent::Mouse {
                    flags: PTR_VERTICAL_WHEEL,
                    wheel_rotation_units: rdp_wheel_field(units, i - 1) as i16,
                    x: x as u16,
                    y: y as u16,
                }
            },
    )
}

/// Expands a wheel delta into notches of at most 120 units (Windows WHEEL_DELTA), at most 24.
pub fn rdp_wheel_events(x: i32, y: i32, units: i32) -> (r: Vec<RdpInputEvent>)
    requires
        units != 0,
    ensures
        r@ == spec_rdp_wheel_events(x, y, units),
{
    let abs = unsigned_abs(units);
    let mut remaining: u32 = abs;
    let negative = units < 0;
    let mut r: Vec<RdpInputEvent> = Vec::new();
    r.push(RdpInputEvent::Mouse { flags: PTR_MOVE, wheel_rotation_units: 0, x: x as u16, y: y as u16 });
    let mut emitted: u32 = 0;
    while remaining > 0 && emitted < 24
        invariant
            abs as int == abs_units(units),
            abs > 0,
            negative == (units < 0),
            emitted <= 24,
            remaining as int == if abs - 120 * emitted > 0 { abs - 120 * emitted } else { 0 },
            emitted <= rdp_wheel_pdu_count(abs as int),
            emitted < 24 && remaining > 0 ==> emitted < rdp_wheel_pdu_count(abs as int),
            (remaining == 0 || emitted == 24) ==> emitted == rdp_wheel_pdu_count(abs as int),
            r@.len() == 1 + emitted,
            forall|i: int| 0 <= i < r@.len() ==> r@[i] == spec_rdp_wheel_events(x, y, units)[i],
        decreases 24 - emitted,
    {
        let chunk: i16 = if remaining > 120 { 120 } else { remaining as i16 };
        remaining = remaining - chunk as u32;
        let wheel_units: i16 = if negative { chunk - 256 } else { chunk };
        r.push(RdpInputEvent::Mouse { flags: PTR_VERTICAL_WHEEL, wheel_rotation_units: wheel_units, x: x as u16, y: y as u16 });
        emitted = emitted + 1;
    }
    assert(r@ =~= spec_rdp_wheel_events(x, y, units));
    r
}

/// The rotation a wheel PDU carries: the low byte of its rotation field, which
/// MS-RDP reads as the absolute rotation.
pub open spec fn pdu_rotation(e: RdpInputEvent) -> int {
    match e {
        RdpInputEvent::Mouse { wheel_rotation_units, .. } => (wheel_rotation_units as int) % 256,
        _ => 0,
    }
}

/// The rotation all the given PDUs carry together.
pub open spec fn total_rotation(es: Seq<RdpInputEvent>) -> int
    decreases es.len(),
{
    if es.len() == 0 {
        0
    } else {
        total_rotation(es.drop_last()) + pdu_rotation(es.last())
    }
}

proof fn lemma_chunk_total(abs: int, n: int)
    requires
        abs > 0,
        0 <= n <= rdp_wheel_pdu_count(abs),
    ensures
        total_rotation(Seq::new(n as nat, |k: int| RdpInputEvent::Mouse {
            flags: PTR_VERTICAL_WHEEL,
            wheel_rotation_units: rdp_wheel_chunk(abs, k) as i16,
            x: 0,
            y: 0,
        })) == if abs < 120 * n { abs } else { 120 * n },
    decreases n,
{
    let s = Seq::new(n as nat, |k: int| RdpInputEvent::Mouse {
        flags: PTR_VERTICAL_WHEEL,
        wheel_rotation_units: rdp_wheel_chunk(abs, k) as i16,
        x: 0,
        y: 0,
    });
    if n > 0 {
        lemma_chunk_total(abs, n - 1);
        assert(s.drop_last() =~= Seq::new((n - 1) as nat, |k: int| RdpInputEvent::Mouse {
            flags: PTR_VERTICAL_WHEEL,
            wheel_rotation_units: rdp_wheel_chunk(abs, k) as i16,
            x: 0,
            y: 0,
        }));
        assert(abs - 120 * (n - 1) > 0);
    }
}

/// A vertical wheel action reaches an RDP host whole: after the pointer move,
/// each PDU carries between 1 and 120 units of rotation in its low byte,
/// downward exactly when the action scrolls down, and together the PDUs carry
/// the action's full rotation, up to the cap of 24 notches.
pub proof fn lemma_rdp_wheel_carries_rotation(x: i32, y: i32, units: i32)
    requires
        units != 0,
    ensures
        ({
            let es = spec_rdp_wheel_events(x, y, units);
            let abs = abs_units(units);
            &&& es[0] == (RdpInputEvent::Mouse { flags: PTR_MOVE, wheel_rotation_units: 0, x: x as u16, y: y as u16 })
            &&& forall|k: int| 1 <= k < es.len() ==> {
                &&& (#[trigger] es[k]) matches RdpInputEvent::Mouse { flags, wheel_rotation_units, .. }
                &&& flags == PTR_VERTICAL_WHEEL
                &&& (wheel_rotation_units < 0 <==> units < 0)
                &&& 1 <= pdu_rotation(es[k]) <= 120
            }
            &&& total_rotation(es.drop_first()) == if abs < 2880 { abs } else { 2880int }
        }),
{
    let es = spec_rdp_wheel_events(x, y, units);
    let abs = abs_units(units);
    let n = rdp_wheel_pdu_count(abs);
    assert forall|k: int| 0 <= k < n implies 1 <= #[trigger] rdp_wheel_chunk(abs, k) <= 120 by {
        assert(120 * k <= 120 * (n - 1));
    }
    assert forall|k: int| 1 <= k < es.len() implies {
        &&& (#[trigger] es[k]) matches RdpInputEvent::Mouse { flags, wheel_rotation_units, .. }
        &&& flags == PTR_VERTICAL_WHEEL
        &&& (wheel_rotation_units < 0 <==> units < 0)
        &&& 1 <= pdu_rotation(es[k]) <= 120
    } by {
        let c = rdp_wheel_chunk(abs, k - 1);
        assert(1 <= c <= 120);
        if units < 0 {
            assert(((c - 256) as i16) as int == c - 256);
            assert((c - 256) % 256 == c);
        } else {
            assert((c as i16) as int == c);
            assert(c % 256 == c);
        }
    }
    let chunks = Seq::new(n as nat, |k: int| RdpInputEvent::Mouse {
        flags: PTR_VERTICAL_WHEEL,
        wheel_rotation_units: rdp_wheel_chunk(abs, k) as i16,
        x: 0,
        y: 0,
    });
    lemma_chunk_total(abs, n);
    assert(total_rotation(es.drop_first()) == total_rotation(chunks)) by {
        lemma_same_rotation(es.drop_first(), chunks);
    }
    if abs < 120 * 24 {
        assert(120 * n >= abs);
    }
}

proof fn lemma_same_rotation(a: Seq<RdpInputEvent>, b: Seq<RdpInputEvent>)
    requires
        a.len() == b.len(),
        forall|k: int| 0 <= k < a.len() ==> pdu_rotation(#[trigger] a[k]) == pdu_rotation(b[k]),
    ensures
        total_rotation(a) == total_rotation(b),
    decreases a.len(),
{
    if a.len() > 0 {
        lemma_same_rotation(a.drop_last(), b.drop_last());
        assert(pdu_rotation(a.last()) == pdu_rotation(b.last()));
    }
}

/// The number of VNC wheel clicks for a wheel delta: about one per 60 units, 1 to 24.
pub open spec fn vnc_wheel_steps(abs: int) -> int {
    let steps = (abs + 59) / 60;
    if steps < 1 {
        1
    } else if steps > 24 {
        24
    } else {
        steps
    }
}

/// The VNC events of a wheel action: a move with the held buttons, then one
/// press/release pair of button 4 (up, positive units) or 5 (down) per step.
pub open spec fn spec_vnc_wheel_events(x: i32, y: i32, units: i32, mask: u8) -> Seq<VncInputEvent> {
    let wheel_bit: u8 = if units > 0 { 8 } else { 16 };
    Seq::new(
        (1 + 2 * vnc_wheel_steps(abs_units(units))) as nat,
        |i: int|
            if i % 2 == 1 {
                VncInputEvent::Pointer { x: x as u16, y: y as u16, buttons: mask | wheel_bit }
            } else {
                VncInputEvent::Pointer { x: x as u16, y: y as u16, buttons: mask }
            },
    )
}

pub fn vnc_wheel_events(x: i32, y: i32, units: i32, mask: u8) -> (r: Vec<VncInputEvent>)
    ensures
        r@ == spec_vnc_wheel_events(x, y, units, mask),
{
    let wheel_bit: u8 = if units > 0 { 8 } else { 16 };
    let abs = unsigned_abs(units);
    let raw = (abs as u64 + 59) / 60;
    let steps: u64 = if raw < 1 { 1 } else if raw > 24 { 24 } else { raw };
    let mut r: Vec<VncInputEvent> = Vec::new();
    r.push(VncInputEvent::Pointer { x: x as u16, y: y as u16, buttons: mask });
    let mut k: u64 = 0;
    while k < steps
        invariant
            steps as int == vnc_wheel_steps(abs_units(units)),
            wheel_bit == (if units > 0 { 8u8 } else { 16u8 }),
            k <= steps,
            r@.len() == 1 + 2 * k,
            forall|i: int| 0 <= i < r@.len() ==> r@[i] == spec_vnc_wheel_events(x, y, units, mask)[i],
        decreases steps - k,
    {
        r.push(VncInputEvent::Pointer { x: x as u16, y: y as u16, buttons: mask | wheel_bit });
        r.push(VncInputEvent::Pointer { x: x as u16, y: y as u16, buttons: mask });
        k = k + 1;
    }
    assert(r@ =~= spec_vnc_wheel_events(x, y, units, mask));
    r
}

/// RDP keyboard flags of a key press (`pressed != 0`) or release.
pub open spec fn spec_key_flags(pressed: i32, extended: bool) -> u8 {
    let base: u8 = if pressed == 0 { KBD_RELEASE } else { 0 };
    if extended {
        base | KBD_EXTENDED
    } else {
        base
    }
}

pub fn key_flags(pressed: i32, extended: bool) -> (r: u8)
    ensures
        r == spec_key_flags(pressed, extended),
{
    let base: u8 = if pressed == 0 { KBD_RELEASE } else { 0 };
    if extended {
        base | KBD_EXTENDED
    } else {
        base
    }
}

/// The RDP event of a character key: Backspace (8) and Enter (13) go as scancodes,
/// everything else as a Unicode key event.
pub open spec fn spec_rdp_key_event(keycode: i32, pressed: i32) -> RdpInputEvent {
    let flags = spec_key_flags(pressed, false);
    if keycode == 8 {
        RdpInputEvent::Keyboard { flags, code: 0x0E }
    } else if keycode == 13 {
        RdpInputEvent::Keyboard { flags, code: 0x1C }
    } else {
        RdpInputEvent::UnicodeKeyboard { flags, code: keycode as u16 }
    }
}

pub fn rdp_key_event(keycode: i32, pressed: i32) -> (r: RdpInputEvent)
    ensures
        r == spec_rdp_key_event(keycode, pressed),
{
    let flags = key_flags(pressed, false);
    if keycode == 8 {
        RdpInputEvent::Keyboard { flags, code: 0x0E }
    } else if keycode == 13 {
        RdpInputEvent::Keyboard { flags, code: 0x1C }
    } else {
        RdpInputEvent::UnicodeKeyboard { flags, code: keycode as u16 }
    }
}

/// The VNC event of a character key: Backspace and Enter map to their X11 keysyms.
pub open spec fn spec_vnc_key_event(keycode: i32, pressed: i32) -> VncInputEvent {
    let keysym: u32 = if keycode == 8 {
        0xff08
    } else if keycode == 13 {
        0xff0d
    } else {
        keycode as u32
    };
    VncInputEvent::Key { keysym, down: pressed != 0 }
}

pub fn vnc_key_event(keycode: i32, pressed: i32) -> (r: VncInputEvent)
    ensures
        r == spec_vnc_key_event(keycode, pressed),
{
    let keysym: u32 = if keycode == 8 {
        0xff08
    } else if keycode == 13 {
        0xff0d
    } else {
        keycode as u32
    };
    VncInputEvent::Key { keysym, down: pressed != 0 }
}

/// The X11 keysym of a PC/AT scancode, for VNC servers (letters as lower case;
/// the server applies Shift itself).
pub open spec fn spec_scancode_to_keysym(scancode: u32) -> Option<u32> {
    match scancode {
        0x01 => Some(0xff1bu32),
        0x0f => Some(0xff09u32),
        0x0e => Some(0xff08u32),
        0x1c => Some(0xff0du32),
        0x1d => Some(0xffe3u32),
        0x38 => Some(0xffe9u32),
        0x2a => Some(0xffe1u32),
        0x36 => Some(0xffe2u32),
        0x5b => Some(0xffebu32),
        0x3a => Some(0xffe5u32),
        0x53 => Some(0xffffu32),
        0x52 => Some(0xff63u32),
        0x37 => Some(0xff61u32),
        0x47 => Some(0xff50u32),
        0x4f => Some(0xff57u32),
        0x49 => Some(0xff55u32),
        0x51 => Some(0xff56u32),
        0x4b => Some(0xff51u32),
        0x48 => Some(0xff52u32),
        0x50 => Some(0xff54u32),
        0x4d => Some(0xff53u32),
        0x02 => Some(0x31u32),
        0x03 => Some(0x32u32),
        0x04 => Some(0x33u32),
        0x05 => Some(0x34u32),
        0x06 => Some(0x35u32),
        0x07 => Some(0x36u32),
        0x08 => Some(0x37u32),
        0x09 => Some(0x38u32),
        0x0a => Some(0x39u32),
        0x0b => Some(0x30u32),
        0x0c => Some(0x2du32),
        0x0d => Some(0x3du32),
        0x10 => Some(0x71u32),
        0x11 => Some(0x77u32),
        0x12 => Some(0x65u32),
        0x13 => Some(0x72u32),
        0x14 => Some(0x74u32),
        0x15 => Some(0x79u32),
        0x16 => Some(0x75u32),
        0x17 => Some(0x69u32),
        0x18 => Some(0x6fu32),
        0x19 => Some(0x70u32),
        0x1e => Some(0x61u32),
        0x1f => Some(0x73u32),
        0x20 => Some(0x64u32),
        0x21 => Some(0x66u32),
        0x22 => Some(0x67u32),
        0x23 => Some(0x68u32),
        0x24 => Some(0x6au32),
        0x25 => Some(0x6bu32),
        0x26 => Some(0x6cu32),
        0x2c => Some(0x7au32),
        0x2d => Some(0x78u32),
        0x2e => Some(0x63u32),
        0x2f => Some(0x76u32),
        0x30 => Some(0x62u32),
        0x31 => Some(0x6eu32),
        0x32 => Some(0x6du32),
        0x1a => Some(0x5bu32),
        0x1b => Some(0x5du32),
        0x2b => Some(0x5cu32),
        0x27 => Some(0x3bu32),
        0x28 => Some(0x27u32),
        0x29 => Some(0x60u32),
        0x33 => Some(0x2cu32),
        0x34 => Some(0x2eu32),
        0x35 => Some(0x2fu32),
        0x39 => Some(0x20u32),
        0x3b => Some(0xffbeu32),
        0x3c => Some(0xffbfu32),
        0x3d => Some(0xffc0u32),
        0x3e => Some(0xffc1u32),
        0x3f => Some(0xffc2u32),
        0x40 => Some(0xffc3u32),
        0x41 => Some(0xffc4u32),
        0x42 => Some(0xffc5u32),
        0x43 => Some(0xffc6u32),
        0x44 => Some(0xffc7u32),
        0x57 => Some(0xffc8u32),
        0x58 => Some(0xffc9u32),
        _ => None,
    }
}

pub fn scancode_to_keysym(scancode: u32, is_extended: bool) -> (r: Option<u32>)
    ensures
        r == spec_scancode_to_keysym(scancode),
{
    match scancode {
        0x01 => Some(0xff1b),
        0x0f => Some(0xff09),
        0x0e => Some(0xff08),
        0x1c => Some(0xff0d),
        0x1d => Some(0xffe3),
        0x38 => Some(0xffe9),
        0x2a => Some(0xffe1),
        0x36 => Some(0xffe2),
        0x5b => Some(0xffeb),
        0x3a => Some(0xffe5),
        0x53 => Some(0xffff),
        0x52 => Some(0xff63),
        0x37 => Some(0xff61),
        0x47 => Some(0xff50),
        0x4f => Some(0xff57),
        0x49 => Some(0xff55),
        0x51 => Some(0xff56),
        0x4b => Some(0xff51),
        0x48 => Some(0xff52),
        0x50 => Some(0xff54),
        0x4d => Some(0xff53),
        0x02 => Some(0x31),
        0x03 => Some(0x32),
        0x04 => Some(0x33),
        0x05 => Some(0x34),
        0x06 => Some(0x35),
        0x07 => Some(0x36),
        0x08 => Some(0x37),
        0x09 => Some(0x38),
        0x0a => Some(0x39),
        0x0b => Some(0x30),
        0x0c => Some(0x2d),
        0x0d => Some(0x3d),
        0x10 => Some(0x71),
        0x11 => Some(0x77),
        0x12 => Some(0x65),
        0x13 => Some(0x72),
        0x14 => Some(0x74),
        0x15 => Some(0x79),
        0x16 => Some(0x75),
        0x17 => Some(0x69),
        0x18 => Some(0x6f),
        0x19 => Some(0x70),
        0x1e => Some(0x61),
        0x1f => Some(0x73),
        0x20 => Some(0x64),
        0x21 => Some(0x66),
        0x22 => Some(0x67),
        0x23 => Some(0x68),
        0x24 => Some(0x6a),
        0x25 => Some(0x6b),
        0x26 => Some(0x6c),
        0x2c => Some(0x7a),
        0x2d => Some(0x78),
        0x2e => Some(0x63),
        0x2f => Some(0x76),
        0x30 => Some(0x62),
        0x31 => Some(0x6e),
        0x32 => Some(0x6d),
        0x1a => Some(0x5b),
        0x1b => Some(0x5d),
        0x2b => Some(0x5c),
        0x27 => Some(0x3b),
        0x28 => Some(0x27),
        0x29 => Some(0x60),
        0x33 => Some(0x2c),
        0x34 => Some(0x2e),
        0x35 => Some(0x2f),
        0x39 => Some(0x20),
        0x3b => Some(0xffbe),
        0x3c => Some(0xffbf),
        0x3d => Some(0xffc0),
        0x3e => Some(0xffc1),
        0x3f => Some(0xffc2),
        0x40 => Some(0xffc3),
        0x41 => Some(0xffc4),
        0x42 => Some(0xffc5),
        0x43 => Some(0xffc6),
        0x44 => Some(0xffc7),
        0x57 => Some(0xffc8),
        0x58 => Some(0xffc9),
        _ => None,
    }
}

} // verus!
