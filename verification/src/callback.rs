//! Platform-neutral session event callbacks, and the filter that mutes the
//! client's own diagnostic messages when the user disabled them.

use vstd::prelude::*;

use crate::text::{chars_of, is_whitespace, ascii_lower, spec_is_whitespace, spec_ascii_lower, leading_whitespace, lemma_leading_count, CharSet};

verus! {

/// Platform-neutral callbacks for RDP/VNC session events.
///
/// State codes match the Android app:
/// - 0 = IDLE / disconnected
/// - 1 = CONNECTING
/// - 2 = CONNECTED
/// - 3 = FAILED
pub trait SessionCallback {
    fn on_state_changed(&self, state: i32, message: &str);

    fn on_frame_decoded(&self, pixels: &[i32], x: i32, y: i32, width: i32, height: i32);

    fn on_resolution_changed(&self, width: i32, height: i32);

    fn on_cursor_changed(&self, cursor_type: i32) {
    }

    fn on_cursor_bitmap(&self, width: i32, height: i32, hot_x: i32, hot_y: i32, pixels: &[i32]) {
    }
}

/// The marker with which the client prefixes its own diagnostic messages.
pub open spec fn rust_log_marker() -> Seq<char> {
    seq!['[', 'r', 'u', 's', 't', ' ', 'l', 'o', 'g', ']']
}

/// Whether a message, after leading whitespace and ignoring ASCII case, starts with `[rust log]`.
pub open spec fn spec_is_rust_log_message(s: Seq<char>) -> bool {
    let t = s.skip(leading_whitespace(s));
    &&& t.len() >= 10
    &&& forall|i: int| 0 <= i < 10 ==> spec_ascii_lower(#[trigger] t[i]) == rust_log_marker()[i]
}

pub fn is_rust_log_message(message: &str) -> (r: bool)
    ensures
        r == spec_is_rust_log_message(message@),
{
    let cs = chars_of(message);
    let mut k: usize = 0;
    while k < cs.len() && is_whitespace(cs[k])
        invariant
            k <= cs@.len(),
            forall|j: int| 0 <= j < k ==> spec_is_whitespace(cs@[j]),
        decreases cs.len() - k,
    {
        k = k + 1;
    }
    proof {
        lemma_leading_count(cs@, CharSet::Whitespace, k as int);
    }
    let marker = ['[', 'r', 'u', 's', 't', ' ', 'l', 'o', 'g', ']'];
    assert(marker@ =~= rust_log_marker());
    if cs.len() - k < 10 {
        return false;
    }
    let ghost t = cs@.skip(k as int);
    let mut i: usize = 0;
    while i < 10
        invariant
            i <= 10,
            k + 10 <= cs@.len(),
            cs@.len() <= usize::MAX,
            t == cs@.skip(k as int),
            cs@ == message@,
            leading_whitespace(message@) == k,
            marker@ == rust_log_marker(),
            forall|j: int| 0 <= j < i ==> spec_ascii_lower(#[trigger] t[j]) == rust_log_marker()[j],
        decreases 10 - i,
    {
        let idx = k + i;
        if ascii_lower(cs[idx]) != marker[i] {
            assert(t[i as int] == cs@[k + i]);
            return false;
        }
        assert(t[i as int] == cs@[k + i]);
        i = i + 1;
    }
    true
}

/// Whether a state change is forwarded: diagnostic (`[rust log]`) messages are
/// dropped while the user has disabled them.
pub open spec fn spec_forwards_state_change(message: Seq<char>, rust_log_disabled: bool) -> bool {
    !(spec_is_rust_log_message(message) && rust_log_disabled)
}

/// Forwards a state change to the callback unless it is a muted diagnostic message;
/// returns whether it was forwarded.
pub fn notify_state_change<C: SessionCallback + ?Sized>(
    callback: &C,
    state: i32,
    message: &str,
    rust_log_disabled: bool,
) -> (delivered: bool)
    ensures
        delivered == spec_forwards_state_change(message@, rust_log_disabled),
{
    if rust_log_disabled && is_rust_log_message(message) {
        return false;
    }
    callback.on_state_changed(state, message);
    true
}

pub fn notify_resolution_change<C: SessionCallback + ?Sized>(callback: &C, width: i32, height: i32) {
    callback.on_resolution_changed(width, height);
}

/// Hands a full frame (origin 0, 0) to the callback.
pub fn push_frame<C: SessionCallback + ?Sized>(callback: &C, pixels: &[i32], width: i32, height: i32) {
    callback.on_frame_decoded(pixels, 0, 0, width, height);
}

pub fn notify_cursor_change<C: SessionCallback + ?Sized>(callback: &C, cursor_type: i32) {
    callback.on_cursor_changed(cursor_type);
}

pub fn notify_cursor_bitmap<C: SessionCallback + ?Sized>(
    callback: &C,
    width: i32,
    height: i32,
    hot_x: i32,
    hot_y: i32,
    pixels: &[i32],
) {
    callback.on_cursor_bitmap(width, height, hot_x, hot_y, pixels);
}

} // verus!
