//! What the remote view forwards to the remote host while it owns the pointer
//! and keyboard: mouse moves and button transitions (with touchpad jitter
//! suppression and hover throttling), modifier synchronisation, key
//! transitions, and the release of everything still held.

use vstd::prelude::*;

use crate::keys::{
    egui_key_to_scancode, is_extended_scancode, key_scancode, spec_is_extended_scancode, spec_transitions,
    Key, KeyTransition, KeyboardEvent, Modifiers, RemoteKeyboardState,
};

verus! {

/// One input message for the remote session of the active tab.
#[derive(Clone, Copy, Debug, PartialEq, Eq, Structural)]
pub enum RemoteAction {
    /// A pointer event: 0 moves, 1/2 press/release the primary button,
    /// 3/4 the secondary, 5/6 the middle, 7/8 the first extra and 9/10 the
    /// second extra button.
    Mouse { x: i32, y: i32, action: i32 },
    /// A PC/AT scancode press or release.
    Scancode { scancode: i32, extended: bool, pressed: bool },
    /// A virtual key code press or release.
    Key { keycode: i32, pressed: bool },
    /// Ask the UI for another frame (a release is deferred to it).
    Repaint,
}

/// The pointer buttons as the local UI toolkit reports them for one frame.
#[derive(Clone, Copy, Debug, PartialEq, Eq, Structural)]
pub struct PointerButtons {
    pub primary_pressed: bool,
    pub primary_released: bool,
    /// The primary button is still held at the end of the frame.
    pub primary_down: bool,
    pub secondary_pressed: bool,
    pub secondary_released: bool,
    /// The secondary button is still held at the end of the frame.
    pub secondary_down: bool,
    pub middle_pressed: bool,
    pub middle_released: bool,
    pub extra1_pressed: bool,
    pub extra1_released: bool,
    pub extra2_pressed: bool,
    pub extra2_released: bool,
}

/// Hover-move throttling: while no button is held, moves are sent at most once
/// per interval (clamped to 50..=1000 ms).
#[derive(Clone, Copy, Debug, PartialEq, Eq, Structural)]
pub struct HoverThrottle {
    pub enabled: bool,
    pub interval_ms: u64,
}

/// A position in remote-desktop pixels.
#[derive(Clone, Copy, Debug, PartialEq, Eq, Structural)]
pub struct RemotePos {
    pub x: i32,
    pub y: i32,
}

/// What the remote host has been told about the pointer of one tab.
#[derive(Clone, Copy, Debug, PartialEq, Eq, Structural)]
pub struct PointerState {
    /// The last position sent to the remote host.
    pub last_mouse: Option<RemotePos>,
    /// When that position was sent, in milliseconds of a monotonic clock.
    pub last_send_ms: Option<u64>,
    pub left_down: bool,
    /// Where the primary button went down.
    pub left_down_pos: Option<RemotePos>,
    /// The pointer left the jitter box since the primary button went down.
    pub left_down_dragged: bool,
    pub right_down: bool,
    pub middle_down: bool,
    pub extra1_down: bool,
    pub extra2_down: bool,
}

pub open spec fn mouse(x: i32, y: i32, action: i32) -> RemoteAction {
    RemoteAction::Mouse { x, y, action }
}

/// The pointer state of a fresh tab: nothing sent, nothing held.
pub open spec fn initial_pointer() -> PointerState {
    PointerState {
        last_mouse: None,
        last_send_ms: None,
        left_down: false,
        left_down_pos: None,
        left_down_dragged: false,
        right_down: false,
        middle_down: false,
        extra1_down: false,
        extra2_down: false,
    }
}

pub open spec fn clamp_interval(ms: u64) -> u64 {
    if ms < 50 {
        50
    } else if ms > 1000 {
        1000
    } else {
        ms
    }
}

/// Whether a throttled hover move may be sent at `now` (a clock that went
/// backwards counts as no time elapsed).
pub open spec fn hover_send_due(last: Option<u64>, now: u64, interval_ms: u64) -> bool {
    match last {
        None => true,
        Some(t) => (if now >= t { now - t } else { 0 }) >= clamp_interval(interval_ms),
    }
}

pub open spec fn differ_by_more_than(a: i32, b: i32, limit: int) -> bool {
    a - b > limit || b - a > limit
}

/// Whether a move to (x, y) is touchpad jitter of a fresh primary press,
/// and the new "dragged" flag: leaving the 8-pixel box ends the jitter window.
pub open spec fn jitter(s: PointerState, x: i32, y: i32) -> (bool, bool) {
    if s.left_down && !s.left_down_dragged {
        match s.left_down_pos {
            Some(RemotePos { x: ox, y: oy }) => if differ_by_more_than(x, ox, 8) || differ_by_more_than(y, oy, 8) {
                (false, true)
            } else {
                (true, false)
            },
            None => (false, false),
        }
    } else {
        (false, s.left_down_dragged)
    }
}

pub open spec fn any_button_held(s: PointerState) -> bool {
    s.left_down || s.right_down || s.middle_down || s.extra1_down || s.extra2_down
}

pub open spec fn with_dragged(s: PointerState, dragged: bool) -> PointerState {
    PointerState { left_down_dragged: dragged, ..s }
}

pub open spec fn with_sent(s: PointerState, x: i32, y: i32, now: u64) -> PointerState {
    PointerState { last_mouse: Some(RemotePos { x, y }), last_send_ms: Some(now), ..s }
}

/// The move part of a pointer frame.
#[verifier::opaque]
pub open spec fn move_phase(s: PointerState, x: i32, y: i32, t: HoverThrottle, now: u64) -> (PointerState, Seq<RemoteAction>) {
    let moved = s.last_mouse != Some(RemotePos { x, y });
    let (is_jitter, dragged) = jitter(s, x, y);
    let s1 = with_dragged(s, dragged);
    if moved && !is_jitter {
        if t.enabled && !any_button_held(s) {
            if hover_send_due(s.last_send_ms, now, t.interval_ms) {
                (with_sent(s1, x, y, now), seq![mouse(x, y, 0)])
            } else {
                (s1, Seq::empty())
            }
        } else {
            (with_sent(s1, x, y, now), seq![mouse(x, y, 0)])
        }
    } else {
        (s1, Seq::empty())
    }
}

pub open spec fn left_up_state(s: PointerState) -> PointerState {
    PointerState { left_down: false, left_down_pos: None, left_down_dragged: false, ..s }
}

/// The primary-button part of a pointer frame. A press while the remote still
/// holds the button releases it first; a release in the frame of its own press
/// is deferred to the next frame; a release the toolkit never reported is
/// sent once the button is no longer held.
#[verifier::opaque]
pub open spec fn left_phase(s: PointerState, x: i32, y: i32, b: PointerButtons) -> (PointerState, Seq<RemoteAction>) {
    let (s1, a1) = if b.primary_pressed {
        (
            PointerState { left_down: true, left_down_pos: Some(RemotePos { x, y }), left_down_dragged: false, ..s },
            if s.left_down { seq![mouse(x, y, 2), mouse(x, y, 1)] } else { seq![mouse(x, y, 1)] },
        )
    } else {
        (s, Seq::empty())
    };
    let (s2, a2) = if b.primary_released && s1.left_down {
        if b.primary_pressed {
            (s1, seq![RemoteAction::Repaint])
        } else {
            (left_up_state(s1), seq![mouse(x, y, 2)])
        }
    } else {
        (s1, Seq::empty())
    };
    if !b.primary_pressed && !b.primary_released && s2.left_down && !b.primary_down {
        (left_up_state(s2), a1 + a2 + seq![mouse(x, y, 2)])
    } else {
        (s2, a1 + a2)
    }
}

/// The secondary-button part of a pointer frame (same deferral rules, no jitter box).
#[verifier::opaque]
pub open spec fn right_phase(s: PointerState, x: i32, y: i32, b: PointerButtons) -> (PointerState, Seq<RemoteAction>) {
    let (h1, a1) = if b.secondary_pressed {
        (true, seq![mouse(x, y, 3)])
    } else {
        (s.right_down, Seq::empty())
    };
    let (h2, a2) = if b.secondary_released && h1 {
        if b.secondary_pressed {
            (h1, seq![RemoteAction::Repaint])
        } else {
            (false, seq![mouse(x, y, 4)])
        }
    } else {
        (h1, Seq::empty())
    };
    if !b.secondary_pressed && !b.secondary_released && h2 && !b.secondary_down {
        (PointerState { right_down: false, ..s }, a1 + a2 + seq![mouse(x, y, 4)])
    } else {
        (PointerState { right_down: h2, ..s }, a1 + a2)
    }
}

/// A button forwarded press-then-release within one frame.
#[verifier::opaque]
pub open spec fn click_phase(held: bool, pressed: bool, released: bool, x: i32, y: i32, down: i32, up: i32) -> (bool, Seq<RemoteAction>) {
    let h1 = held || pressed;
    let a1 = if pressed { seq![mouse(x, y, down)] } else { Seq::empty() };
    if released && h1 {
        (false, a1.push(mouse(x, y, up)))
    } else {
        (h1, a1)
    }
}

/// One frame of pointer input over the remote view at remote position (x, y).
pub open spec fn spec_pointer_step(
    s: PointerState,
    x: i32,
    y: i32,
    b: PointerButtons,
    t: HoverThrottle,
    now: u64,
) -> (PointerState, Seq<RemoteAction>) {
    let (s1, a1) = move_phase(s, x, y, t, now);
    let (s2, a2) = left_phase(s1, x, y, b);
    let (s3, a3) = right_phase(s2, x, y, b);
    let (m, a4) = click_phase(s3.middle_down, b.middle_pressed, b.middle_released, x, y, 5, 6);
    let (e1, a5) = click_phase(s3.extra1_down, b.extra1_pressed, b.extra1_released, x, y, 7, 8);
    let (e2, a6) = click_phase(s3.extra2_down, b.extra2_pressed, b.extra2_released, x, y, 9, 10);
    (
        PointerState { middle_down: m, extra1_down: e1, extra2_down: e2, ..s3 },
        a1 + a2 + a3 + a4 + a5 + a6,
    )
}

/// How one action changes whether the remote host holds a button.
pub open spec fn button_step(held: bool, a: RemoteAction, down: i32, up: i32) -> bool {
    match a {
        RemoteAction::Mouse { action, .. } => if action == down {
            true
        } else if action == up {
            false
        } else {
            held
        },
        _ => held,
    }
}

/// Whether the remote host holds a button after the given actions, starting
/// from `held`: its press code sets it, its release code clears it.
pub open spec fn remote_button_after(held: bool, acts: Seq<RemoteAction>, down: i32, up: i32) -> bool
    decreases acts.len(),
{
    if acts.len() == 0 {
        held
    } else {
        button_step(remote_button_after(held, acts.drop_last(), down, up), acts.last(), down, up)
    }
}

/// Releasing every held button at the last sent position (nothing is sent
/// when no position was ever sent).
pub open spec fn spec_release_buttons(s: PointerState) -> (PointerState, Seq<RemoteAction>) {
    match s.last_mouse {
        Some(RemotePos { x, y }) => (
            PointerState {
                left_down: false,
                right_down: false,
                middle_down: false,
                extra1_down: false,
                extra2_down: false,
                ..s
            },
            (if s.left_down { seq![mouse(x, y, 2)] } else { Seq::empty() })
                + (if s.right_down { seq![mouse(x, y, 4)] } else { Seq::empty() })
                + (if s.middle_down { seq![mouse(x, y, 6)] } else { Seq::empty() })
                + (if s.extra1_down { seq![mouse(x, y, 8)] } else { Seq::empty() })
                + (if s.extra2_down { seq![mouse(x, y, 10)] } else { Seq::empty() }),
        ),
        None => (s, Seq::empty()),
    }
}

/// The pointer state after the session of a tab was disconnected.
pub open spec fn spec_after_disconnect(s: PointerState) -> PointerState {
    PointerState {
        last_mouse: None,
        left_down: false,
        right_down: false,
        middle_down: false,
        extra1_down: false,
        extra2_down: false,
        ..s
    }
}

proof fn lemma_button_after_append(held: bool, a: Seq<RemoteAction>, b: Seq<RemoteAction>, down: i32, up: i32)
    ensures
        remote_button_after(held, a + b, down, up)
            == remote_button_after(remote_button_after(held, a, down, up), b, down, up),
    decreases b.len(),
{
    if b.len() == 0 {
        assert(a + b =~= a);
    } else {
        assert((a + b).drop_last() =~= a + b.drop_last());
        lemma_button_after_append(held, a, b.drop_last(), down, up);
    }
}

proof fn lemma_button_after_one(held: bool, a: RemoteAction, down: i32, up: i32)
    ensures
        remote_button_after(held, seq![a], down, up) == button_step(held, a, down, up),
{
    reveal_with_fuel(remote_button_after, 2);
    assert(seq![a].drop_last() =~= Seq::<RemoteAction>::empty());
}

proof fn lemma_button_after_two(held: bool, a: RemoteAction, b: RemoteAction, down: i32, up: i32)
    ensures
        remote_button_after(held, seq![a, b], down, up)
            == button_step(button_step(held, a, down, up), b, down, up),
{
    assert(seq![a, b].drop_last() =~= seq![a]);
    lemma_button_after_one(held, a, down, up);
}

proof fn lemma_move_phase_buttons(s: PointerState, x: i32, y: i32, t: HoverThrottle, now: u64, h: bool, d: i32, u: i32)
    requires
        d != 0 && u != 0,
    ensures
        remote_button_after(h, move_phase(s, x, y, t, now).1, d, u) == h,
        move_phase(s, x, y, t, now).0.left_down == s.left_down,
        move_phase(s, x, y, t, now).0.right_down == s.right_down,
        move_phase(s, x, y, t, now).0.middle_down == s.middle_down,
        move_phase(s, x, y, t, now).0.extra1_down == s.extra1_down,
        move_phase(s, x, y, t, now).0.extra2_down == s.extra2_down,
{
    reveal(move_phase);
    lemma_button_after_one(h, mouse(x, y, 0), d, u);
}

proof fn lemma_left_phase_buttons(s: PointerState, x: i32, y: i32, b: PointerButtons, h: bool, d: i32, u: i32)
    ensures
        remote_button_after(s.left_down, left_phase(s, x, y, b).1, 1, 2) == left_phase(s, x, y, b).0.left_down,
        d != 1 && d != 2 && u != 1 && u != 2 ==> remote_button_after(h, left_phase(s, x, y, b).1, d, u) == h,
        left_phase(s, x, y, b).0.right_down == s.right_down,
        left_phase(s, x, y, b).0.middle_down == s.middle_down,
        left_phase(s, x, y, b).0.extra1_down == s.extra1_down,
        left_phase(s, x, y, b).0.extra2_down == s.extra2_down,
{
    reveal(left_phase);
    let a1: Seq<RemoteAction> = if b.primary_pressed {
        if s.left_down { seq![mouse(x, y, 2), mouse(x, y, 1)] } else { seq![mouse(x, y, 1)] }
    } else {
        Seq::empty()
    };
    let s1 = if b.primary_pressed {
        PointerState { left_down: true, left_down_pos: Some(RemotePos { x, y }), left_down_dragged: false, ..s }
    } else {
        s
    };
    let a2: Seq<RemoteAction> = if b.primary_released && s1.left_down {
        if b.primary_pressed { seq![RemoteAction::Repaint] } else { seq![mouse(x, y, 2)] }
    } else {
        Seq::empty()
    };
    let s2 = if b.primary_released && s1.left_down && !b.primary_pressed { left_up_state(s1) } else { s1 };
    let last = !b.primary_pressed && !b.primary_released && s2.left_down && !b.primary_down;
    let a3: Seq<RemoteAction> = if last { seq![mouse(x, y, 2)] } else { Seq::empty() };
    assert(left_phase(s, x, y, b).1 =~= a1 + a2 + a3);
    assert forall|h: bool, d: i32, u: i32|
        (d == 1 && u == 2) || (d != 1 && d != 2 && u != 1 && u != 2) implies remote_button_after(h, a1 + a2 + a3, d, u)
            == remote_button_after(remote_button_after(remote_button_after(h, a1, d, u), a2, d, u), a3, d, u) by {
        lemma_button_after_append(h, a1 + a2, a3, d, u);
        lemma_button_after_append(h, a1, a2, d, u);
    }
    assert forall|h: bool, d: i32, u: i32| true implies
        remote_button_after(h, a1, d, u) == (if b.primary_pressed {
            if s.left_down { button_step(button_step(h, mouse(x, y, 2), d, u), mouse(x, y, 1), d, u) }
            else { button_step(h, mouse(x, y, 1), d, u) }
        } else { h })
        && remote_button_after(h, a2, d, u) == (if b.primary_released && s1.left_down {
            button_step(h, a2[0], d, u)
        } else { h })
        && remote_button_after(h, a3, d, u) == (if last { button_step(h, mouse(x, y, 2), d, u) } else { h }) by {
        lemma_button_after_two(h, mouse(x, y, 2), mouse(x, y, 1), d, u);
        lemma_button_after_one(h, mouse(x, y, 1), d, u);
        lemma_button_after_one(h, mouse(x, y, 2), d, u);
        lemma_button_after_one(h, RemoteAction::Repaint, d, u);
    }
}

proof fn lemma_right_phase_buttons(s: PointerState, x: i32, y: i32, b: PointerButtons, h: bool, d: i32, u: i32)
    ensures
        remote_button_after(s.right_down, right_phase(s, x, y, b).1, 3, 4) == right_phase(s, x, y, b).0.right_down,
        d != 3 && d != 4 && u != 3 && u != 4 ==> remote_button_after(h, right_phase(s, x, y, b).1, d, u) == h,
        right_phase(s, x, y, b).0.left_down == s.left_down,
        right_phase(s, x, y, b).0.middle_down == s.middle_down,
        right_phase(s, x, y, b).0.extra1_down == s.extra1_down,
        right_phase(s, x, y, b).0.extra2_down == s.extra2_down,
{
    reveal(right_phase);
    let a1: Seq<RemoteAction> = if b.secondary_pressed { seq![mouse(x, y, 3)] } else { Seq::empty() };
    let h1 = if b.secondary_pressed { true } else { s.right_down };
    let a2: Seq<RemoteAction> = if b.secondary_released && h1 {
        if b.secondary_pressed { seq![RemoteAction::Repaint] } else { seq![mouse(x, y, 4)] }
    } else {
        Seq::empty()
    };
    let h2 = if b.secondary_released && h1 && !b.secondary_pressed { false } else { h1 };
    let last = !b.secondary_pressed && !b.secondary_released && h2 && !b.secondary_down;
    let a3: Seq<RemoteAction> = if last { seq![mouse(x, y, 4)] } else { Seq::empty() };
    assert(right_phase(s, x, y, b).1 =~= a1 + a2 + a3);
    assert forall|h: bool, d: i32, u: i32|
        (d == 3 && u == 4) || (d != 3 && d != 4 && u != 3 && u != 4) implies remote_button_after(h, a1 + a2 + a3, d, u)
            == remote_button_after(remote_button_after(remote_button_after(h, a1, d, u), a2, d, u), a3, d, u) by {
        lemma_button_after_append(h, a1 + a2, a3, d, u);
        lemma_button_after_append(h, a1, a2, d, u);
    }
    assert forall|h: bool, d: i32, u: i32| true implies
        remote_button_after(h, a1, d, u) == (if b.secondary_pressed { button_step(h, mouse(x, y, 3), d, u) } else { h })
        && remote_button_after(h, a2, d, u) == (if b.secondary_released && h1 {
            button_step(h, a2[0], d, u)
        } else { h })
        && remote_button_after(h, a3, d, u) == (if last { button_step(h, mouse(x, y, 4), d, u) } else { h }) by {
        lemma_button_after_one(h, mouse(x, y, 3), d, u);
        lemma_button_after_one(h, mouse(x, y, 4), d, u);
        lemma_button_after_one(h, RemoteAction::Repaint, d, u);
    }
}

proof fn lemma_click_phase_buttons(
    held: bool,
    pressed: bool,
    released: bool,
    x: i32,
    y: i32,
    down: i32,
    up: i32,
    h: bool,
    d: i32,
    u: i32,
)
    requires
        down != up,
    ensures
        remote_button_after(held, click_phase(held, pressed, released, x, y, down, up).1, down, up)
            == click_phase(held, pressed, released, x, y, down, up).0,
        d != down && d != up && u != down && u != up ==> remote_button_after(
            h,
            click_phase(held, pressed, released, x, y, down, up).1,
            d,
            u,
        ) == h,
{
    reveal(click_phase);
    let a = click_phase(held, pressed, released, x, y, down, up).1;
    assert forall|h: bool, d: i32, u: i32| true implies
        remote_button_after(h, a, d, u) == (if pressed {
            if released && (held || pressed) {
                button_step(button_step(h, mouse(x, y, down), d, u), mouse(x, y, up), d, u)
            } else {
                button_step(h, mouse(x, y, down), d, u)
            }
        } else if released && held {
            button_step(h, mouse(x, y, up), d, u)
        } else {
            h
        }) by {
        if pressed {
            if released {
                assert(a =~= seq![mouse(x, y, down), mouse(x, y, up)]);
                lemma_button_after_two(h, mouse(x, y, down), mouse(x, y, up), d, u);
            } else {
                lemma_button_after_one(h, mouse(x, y, down), d, u);
            }
        } else if released && held {
            assert(a =~= seq![mouse(x, y, up)]);
            lemma_button_after_one(h, mouse(x, y, up), d, u);
        }
    }
}

proof fn lemma_button_after_six(
    h: bool,
    a1: Seq<RemoteAction>,
    a2: Seq<RemoteAction>,
    a3: Seq<RemoteAction>,
    a4: Seq<RemoteAction>,
    a5: Seq<RemoteAction>,
    a6: Seq<RemoteAction>,
    d: i32,
    u: i32,
)
    ensures
        remote_button_after(h, a1 + a2 + a3 + a4 + a5 + a6, d, u) == remote_button_after(
            remote_button_after(
                remote_button_after(
                    remote_button_after(remote_button_after(remote_button_after(h, a1, d, u), a2, d, u), a3, d, u),
                    a4,
                    d,
                    u,
                ),
                a5,
                d,
                u,
            ),
            a6,
            d,
            u,
        ),
{
    lemma_button_after_append(h, a1 + a2 + a3 + a4 + a5, a6, d, u);
    lemma_button_after_append(h, a1 + a2 + a3 + a4, a5, d, u);
    lemma_button_after_append(h, a1 + a2 + a3, a4, d, u);
    lemma_button_after_append(h, a1 + a2, a3, d, u);
    lemma_button_after_append(h, a1, a2, d, u);
}

/// After any frame of pointer input, each button flag of the tab equals
/// whether the remote host holds that button, judged by the actions sent to it:
/// the host never sees a press twice or a release without a press.
pub proof fn lemma_pointer_step_tracks_remote_buttons(
    s: PointerState,
    x: i32,
    y: i32,
    b: PointerButtons,
    t: HoverThrottle,
    now: u64,
)
    ensures
        ({
            let (s2, acts) = spec_pointer_step(s, x, y, b, t, now);
            &&& remote_button_after(s.left_down, acts, 1, 2) == s2.left_down
            &&& remote_button_after(s.right_down, acts, 3, 4) == s2.right_down
            &&& remote_button_after(s.middle_down, acts, 5, 6) == s2.middle_down
            &&& remote_button_after(s.extra1_down, acts, 7, 8) == s2.extra1_down
            &&& remote_button_after(s.extra2_down, acts, 9, 10) == s2.extra2_down
        }),
{
    lemma_tracks_one(s, x, y, b, t, now, s.left_down, 1, 2);
    lemma_tracks_one(s, x, y, b, t, now, s.right_down, 3, 4);
    lemma_tracks_one(s, x, y, b, t, now, s.middle_down, 5, 6);
    lemma_tracks_one(s, x, y, b, t, now, s.extra1_down, 7, 8);
    lemma_tracks_one(s, x, y, b, t, now, s.extra2_down, 9, 10);
}

#[verifier::spinoff_prover]
proof fn lemma_tracks_one(s: PointerState, x: i32, y: i32, b: PointerButtons, t: HoverThrottle, now: u64, h: bool, d: i32, u: i32)
    requires
        (d == 1 && u == 2 && h == s.left_down) || (d == 3 && u == 4 && h == s.right_down)
            || (d == 5 && u == 6 && h == s.middle_down) || (d == 7 && u == 8 && h == s.extra1_down)
            || (d == 9 && u == 10 && h == s.extra2_down),
    ensures
        ({
            let (s2, acts) = spec_pointer_step(s, x, y, b, t, now);
            remote_button_after(h, acts, d, u) == if d == 1 {
                s2.left_down
            } else if d == 3 {
                s2.right_down
            } else if d == 5 {
                s2.middle_down
            } else if d == 7 {
                s2.extra1_down
            } else {
                s2.extra2_down
            }
        }),
{
    let (s1, a1) = move_phase(s, x, y, t, now);
    let (s2, a2) = left_phase(s1, x, y, b);
    let (s3, a3) = right_phase(s2, x, y, b);
    let (m, a4) = click_phase(s3.middle_down, b.middle_pressed, b.middle_released, x, y, 5, 6);
    let (e1, a5) = click_phase(s3.extra1_down, b.extra1_pressed, b.extra1_released, x, y, 7, 8);
    let (e2, a6) = click_phase(s3.extra2_down, b.extra2_pressed, b.extra2_released, x, y, 9, 10);
    lemma_button_after_six(h, a1, a2, a3, a4, a5, a6, d, u);
    lemma_move_phase_buttons(s, x, y, t, now, h, d, u);
    let r1 = remote_button_after(h, a1, d, u);
    lemma_left_phase_buttons(s1, x, y, b, r1, d, u);
    let r2 = remote_button_after(r1, a2, d, u);
    lemma_right_phase_buttons(s2, x, y, b, r2, d, u);
    let r3 = remote_button_after(r2, a3, d, u);
    lemma_click_phase_buttons(s3.middle_down, b.middle_pressed, b.middle_released, x, y, 5, 6, r3, d, u);
    let r4 = remote_button_after(r3, a4, d, u);
    lemma_click_phase_buttons(s3.extra1_down, b.extra1_pressed, b.extra1_released, x, y, 7, 8, r4, d, u);
    let r5 = remote_button_after(r4, a5, d, u);
    lemma_click_phase_buttons(s3.extra2_down, b.extra2_pressed, b.extra2_released, x, y, 9, 10, r5, d, u);
}

/// Releasing the buttons leaves the remote host holding none of them, provided
/// a position was ever sent or no button is held.
pub proof fn lemma_release_buttons_releases_all(s: PointerState)
    requires
        s.last_mouse is Some || !any_button_held(s),
    ensures
        ({
            let (s2, acts) = spec_release_buttons(s);
            &&& !any_button_held(s2)
            &&& !remote_button_after(s.left_down, acts, 1, 2)
            &&& !remote_button_after(s.right_down, acts, 3, 4)
            &&& !remote_button_after(s.middle_down, acts, 5, 6)
            &&& !remote_button_after(s.extra1_down, acts, 7, 8)
            &&& !remote_button_after(s.extra2_down, acts, 9, 10)
        }),
{
    let (s2, acts) = spec_release_buttons(s);
    match s.last_mouse {
        Some(p) => {
            let x = p.x;
            let y = p.y;
            let a1: Seq<RemoteAction> = if s.left_down { seq![mouse(x, y, 2)] } else { Seq::empty() };
            let a2: Seq<RemoteAction> = if s.right_down { seq![mouse(x, y, 4)] } else { Seq::empty() };
            let a3: Seq<RemoteAction> = if s.middle_down { seq![mouse(x, y, 6)] } else { Seq::empty() };
            let a4: Seq<RemoteAction> = if s.extra1_down { seq![mouse(x, y, 8)] } else { Seq::empty() };
            let a5: Seq<RemoteAction> = if s.extra2_down { seq![mouse(x, y, 10)] } else { Seq::empty() };
            assert(acts =~= a1 + a2 + a3 + a4 + a5 + Seq::empty());
            assert forall|h: bool, d: i32, u: i32| true implies
                remote_button_after(h, a1, d, u) == (if s.left_down { button_step(h, mouse(x, y, 2), d, u) } else { h })
                && remote_button_after(h, a2, d, u) == (if s.right_down { button_step(h, mouse(x, y, 4), d, u) } else { h })
                && remote_button_after(h, a3, d, u) == (if s.middle_down { button_step(h, mouse(x, y, 6), d, u) } else { h })
                && remote_button_after(h, a4, d, u) == (if s.extra1_down { button_step(h, mouse(x, y, 8), d, u) } else { h })
                && remote_button_after(h, a5, d, u) == (if s.extra2_down { button_step(h, mouse(x, y, 10), d, u) } else { h }) by {
                lemma_button_after_one(h, mouse(x, y, 2), d, u);
                lemma_button_after_one(h, mouse(x, y, 4), d, u);
                lemma_button_after_one(h, mouse(x, y, 6), d, u);
                lemma_button_after_one(h, mouse(x, y, 8), d, u);
                lemma_button_after_one(h, mouse(x, y, 10), d, u);
            }
            let e = Seq::<RemoteAction>::empty();
            lemma_button_after_six(s.left_down, a1, a2, a3, a4, a5, e, 1, 2);
            lemma_button_after_six(s.right_down, a1, a2, a3, a4, a5, e, 3, 4);
            lemma_button_after_six(s.middle_down, a1, a2, a3, a4, a5, e, 5, 6);
            lemma_button_after_six(s.extra1_down, a1, a2, a3, a4, a5, e, 7, 8);
            lemma_button_after_six(s.extra2_down, a1, a2, a3, a4, a5, e, 9, 10);
        },
        None => {},
    }
}

impl PointerState {
    /// Nothing sent, nothing held.
    pub fn new() -> (r: Self)
        ensures
            r == initial_pointer(),
    {
        PointerState {
            last_mouse: None,
            last_send_ms: None,
            left_down: false,
            left_down_pos: None,
            left_down_dragged: false,
            right_down: false,
            middle_down: false,
            extra1_down: false,
            extra2_down: false,
        }
    }

    fn jitter(&self, x: i32, y: i32) -> (r: (bool, bool))
        ensures
            r == jitter(*self, x, y),
    {
        if self.left_down && !self.left_down_dragged {
            match self.left_down_pos {
                Some(RemotePos { x: ox, y: oy }) => {
                    let dx: i64 = x as i64 - ox as i64;
                    let dy: i64 = y as i64 - oy as i64;
                    let adx: i64 = if dx < 0 { -dx } else { dx };
                    let ady: i64 = if dy < 0 { -dy } else { dy };
                    if adx > 8 || ady > 8 {
                        (false, true)
                    } else {
                        (true, false)
                    }
                },
                None => (false, false),
            }
        } else {
            (false, self.left_down_dragged)
        }
    }

    fn move_phase(&mut self, x: i32, y: i32, t: HoverThrottle, now: u64, acts: &mut Vec<RemoteAction>)
        ensures
            *final(self) == move_phase(*old(self), x, y, t, now).0,
            final(acts)@ == old(acts)@ + move_phase(*old(self), x, y, t, now).1,
    {
        proof {
            reveal(move_phase);
        }
        let moved = match self.last_mouse {
            Some(RemotePos { x: lx, y: ly }) => lx != x || ly != y,
            None => true,
        };
        let (is_jitter, dragged) = self.jitter(x, y);
        let held = self.left_down || self.right_down || self.middle_down || self.extra1_down
            || self.extra2_down;
        self.left_down_dragged = dragged;
        if moved && !is_jitter {
            let send = if t.enabled && !held {
                let interval: u64 = if t.interval_ms < 50 {
                    50
                } else if t.interval_ms > 1000 {
                    1000
                } else {
                    t.interval_ms
                };
                match self.last_send_ms {
                    None => true,
                    Some(last) => {
                        let elapsed: u64 = if now >= last { now - last } else { 0 };
                        elapsed >= interval
                    },
                }
            } else {
                true
            };
            if send {
                acts.push(RemoteAction::Mouse { x, y, action: 0 });
                self.last_mouse = Some(RemotePos { x, y });
                self.last_send_ms = Some(now);
            }
        }
        assert(acts@ =~= old(acts)@ + move_phase(*old(self), x, y, t, now).1);
    }

    fn release_left(&mut self)
        ensures
            *final(self) == left_up_state(*old(self)),
    {
        self.left_down = false;
        self.left_down_pos = None;
        self.left_down_dragged = false;
    }

    fn left_phase(&mut self, x: i32, y: i32, b: PointerButtons, acts: &mut Vec<RemoteAction>)
        ensures
            *final(self) == left_phase(*old(self), x, y, b).0,
            final(acts)@ == old(acts)@ + left_phase(*old(self), x, y, b).1,
    {
        proof {
            reveal(left_phase);
        }
        if b.primary_pressed {
            if self.left_down {
                acts.push(RemoteAction::Mouse { x, y, action: 2 });
                self.release_left();
            }
            acts.push(RemoteAction::Mouse { x, y, action: 1 });
            self.left_down = true;
            self.left_down_pos = Some(RemotePos { x, y });
            self.left_down_dragged = false;
        }
        if b.primary_released && self.left_down {
            if b.primary_pressed {
                acts.push(RemoteAction::Repaint);
            } else {
                acts.push(RemoteAction::Mouse { x, y, action: 2 });
                self.release_left();
            }
        }
        if !b.primary_pressed && !b.primary_released && self.left_down && !b.primary_down {
            acts.push(RemoteAction::Mouse { x, y, action: 2 });
            self.release_left();
        }
        assert(acts@ =~= old(acts)@ + left_phase(*old(self), x, y, b).1);
    }

    fn right_phase(&mut self, x: i32, y: i32, b: PointerButtons, acts: &mut Vec<RemoteAction>)
        ensures
            *final(self) == right_phase(*old(self), x, y, b).0,
            final(acts)@ == old(acts)@ + right_phase(*old(self), x, y, b).1,
    {
        proof {
            reveal(right_phase);
        }
        if b.secondary_pressed {
            acts.push(RemoteAction::Mouse { x, y, action: 3 });
            self.right_down = true;
        }
        if b.secondary_released && self.right_down {
            if b.secondary_pressed {
                acts.push(RemoteAction::Repaint);
            } else {
                acts.push(RemoteAction::Mouse { x, y, action: 4 });
                self.right_down = false;
            }
        }
        if !b.secondary_pressed && !b.secondary_released && self.right_down && !b.secondary_down {
            acts.push(RemoteAction::Mouse { x, y, action: 4 });
            self.right_down = false;
        }
        assert(acts@ =~= old(acts)@ + right_phase(*old(self), x, y, b).1);
    }

    fn click_phase(
        held: &mut bool,
        pressed: bool,
        released: bool,
        x: i32,
        y: i32,
        down: i32,
        up: i32,
        acts: &mut Vec<RemoteAction>,
    )
        ensures
            *final(held) == click_phase(*old(held), pressed, released, x, y, down, up).0,
            final(acts)@ == old(acts)@ + click_phase(*old(held), pressed, released, x, y, down, up).1,
    {
        proof {
            reveal(click_phase);
        }
        if pressed {
            acts.push(RemoteAction::Mouse { x, y, action: down });
            *held = true;
        }
        if released && *held {
            acts.push(RemoteAction::Mouse { x, y, action: up });
            *held = false;
        }
        assert(acts@ =~= old(acts)@ + click_phase(*old(held), pressed, released, x, y, down, up).1);
    }

    /// Forwards one frame of pointer input at remote position (x, y), `now_ms`
    /// being a monotonic clock reading.
    pub fn step(&mut self, x: i32, y: i32, b: PointerButtons, t: HoverThrottle, now_ms: u64) -> (acts: Vec<RemoteAction>)
        ensures
            (*final(self), acts@) == spec_pointer_step(*old(self), x, y, b, t, now_ms),
    {
        let mut acts: Vec<RemoteAction> = Vec::new();
        self.move_phase(x, y, t, now_ms, &mut acts);
        self.left_phase(x, y, b, &mut acts);
        self.right_phase(x, y, b, &mut acts);
        let mut m = self.middle_down;
        PointerState::click_phase(&mut m, b.middle_pressed, b.middle_released, x, y, 5, 6, &mut acts);
        let mut e1 = self.extra1_down;
        PointerState::click_phase(&mut e1, b.extra1_pressed, b.extra1_released, x, y, 7, 8, &mut acts);
        let mut e2 = self.extra2_down;
        PointerState::click_phase(&mut e2, b.extra2_pressed, b.extra2_released, x, y, 9, 10, &mut acts);
        self.middle_down = m;
        self.extra1_down = e1;
        self.extra2_down = e2;
        proof {
            let ghost (s1, a1) = move_phase(*old(self), x, y, t, now_ms);
            let ghost (s2, a2) = left_phase(s1, x, y, b);
            let ghost (s3, a3) = right_phase(s2, x, y, b);
            let ghost (mm, a4) = click_phase(s3.middle_down, b.middle_pressed, b.middle_released, x, y, 5, 6);
            let ghost (ee1, a5) = click_phase(s3.extra1_down, b.extra1_pressed, b.extra1_released, x, y, 7, 8);
            let ghost (ee2, a6) = click_phase(s3.extra2_down, b.extra2_pressed, b.extra2_released, x, y, 9, 10);
            assert(acts@ =~= a1 + a2 + a3 + a4 + a5 + a6);
        }
        acts
    }

    /// Releases every button the remote host holds, at the last sent position.
    pub fn release_buttons(&mut self) -> (acts: Vec<RemoteAction>)
        ensures
            (*final(self), acts@) == spec_release_buttons(*old(self)),
    {
        let mut acts: Vec<RemoteAction> = Vec::new();
        if let Some(RemotePos { x, y }) = self.last_mouse {
            if self.left_down {
                acts.push(RemoteAction::Mouse { x, y, action: 2 });
                self.left_down = false;
            }
            if self.right_down {
                acts.push(RemoteAction::Mouse { x, y, action: 4 });
                self.right_down = false;
            }
            if self.middle_down {
                acts.push(RemoteAction::Mouse { x, y, action: 6 });
                self.middle_down = false;
            }
            if self.extra1_down {
                acts.push(RemoteAction::Mouse { x, y, action: 8 });
                self.extra1_down = false;
            }
            if self.extra2_down {
                acts.push(RemoteAction::Mouse { x, y, action: 10 });
                self.extra2_down = false;
            }
            assert(acts@ =~= spec_release_buttons(*old(self)).1);
        }
        acts
    }

    /// Forgets the buttons and the last position once the session is gone.
    pub fn reset_after_disconnect(&mut self)
        ensures
            *final(self) == spec_after_disconnect(*old(self)),
    {
        self.left_down = false;
        self.right_down = false;
        self.middle_down = false;
        self.extra1_down = false;
        self.extra2_down = false;
        self.last_mouse = None;
    }
}


/// The modifier keys the remote host has been told are held.
#[derive(Clone, Copy, Debug, PartialEq, Eq, Structural)]
pub struct ModifierState {
    pub shift: bool,
    pub ctrl: bool,
    pub alt: bool,
    /// The Super / Windows / Command key.
    pub super_key: bool,
}

pub open spec fn no_modifiers() -> Modifiers {
    Modifiers { alt: false, ctrl: false, shift: false, mac_cmd: false, command: false }
}

/// The press or release of one modifier scancode, sent only when it changes.
pub open spec fn modifier_toggle(held: bool, want: bool, scancode: i32, extended: bool) -> Seq<RemoteAction> {
    if want != held {
        seq![RemoteAction::Scancode { scancode, extended, pressed: want }]
    } else {
        Seq::empty()
    }
}

/// Bringing the remote modifiers in line with the local ones: Shift (0x2A),
/// Ctrl (0x1D), Alt (0x38) and Super (extended 0x5B, from the toolkit's
/// Command flag or the natively read Super key), in this order.
pub open spec fn spec_sync_modifiers(s: ModifierState, m: Modifiers, native_super: bool) -> (ModifierState, Seq<RemoteAction>) {
    let sup = m.mac_cmd || native_super;
    (
        ModifierState { shift: m.shift, ctrl: m.ctrl, alt: m.alt, super_key: sup },
        modifier_toggle(s.shift, m.shift, 0x2A, false) + modifier_toggle(s.ctrl, m.ctrl, 0x1D, false)
            + modifier_toggle(s.alt, m.alt, 0x38, false) + modifier_toggle(s.super_key, sup, 0x5B, true),
    )
}

impl ModifierState {
    /// No modifier held.
    pub fn new() -> (r: Self)
        ensures
            r == (ModifierState { shift: false, ctrl: false, alt: false, super_key: false }),
    {
        ModifierState { shift: false, ctrl: false, alt: false, super_key: false }
    }

    fn toggle(held: &mut bool, want: bool, scancode: i32, extended: bool, acts: &mut Vec<RemoteAction>)
        ensures
            *final(held) == want,
            final(acts)@ == old(acts)@ + modifier_toggle(*old(held), want, scancode, extended),
    {
        if want != *held {
            acts.push(RemoteAction::Scancode { scancode, extended, pressed: want });
            *held = want;
        }
        assert(acts@ =~= old(acts)@ + modifier_toggle(*old(held), want, scancode, extended));
    }

    /// Sends the modifier transitions that make the remote side match `m`.
    pub fn sync(&mut self, m: Modifiers, native_super: bool) -> (acts: Vec<RemoteAction>)
        ensures
            (*final(self), acts@) == spec_sync_modifiers(*old(self), m, native_super),
    {
        let mut acts: Vec<RemoteAction> = Vec::new();
        ModifierState::toggle(&mut self.shift, m.shift, 0x2A, false, &mut acts);
        ModifierState::toggle(&mut self.ctrl, m.ctrl, 0x1D, false, &mut acts);
        ModifierState::toggle(&mut self.alt, m.alt, 0x38, false, &mut acts);
        ModifierState::toggle(&mut self.super_key, m.mac_cmd || native_super, 0x5B, true, &mut acts);
        assert(acts@ =~= spec_sync_modifiers(*old(self), m, native_super).1);
        acts
    }

    /// Releases every modifier the remote side holds.
    pub fn release(&mut self) -> (acts: Vec<RemoteAction>)
        ensures
            (*final(self), acts@) == spec_sync_modifiers(*old(self), no_modifiers(), false),
    {
        self.sync(Modifiers { alt: false, ctrl: false, shift: false, mac_cmd: false, command: false }, false)
    }
}

/// The message for one key transition: Ctrl+Alt+End stands for the remote
/// Ctrl+Alt+Delete (extended 0x53) so that the local system does not react;
/// other keys send their scancode (extended when the key or the scancode group
/// says so); Backspace and Enter without a scancode fall back to key codes 8 and 13.
pub open spec fn key_action(t: KeyTransition, m: Modifiers) -> Option<RemoteAction> {
    let (scancode, extended) = if m.ctrl && m.alt && t.key == Key::End {
        (0x53i32, true)
    } else {
        match key_scancode(t.key) {
            Some((code, ext)) => (code, ext || spec_is_extended_scancode(code)),
            None => (0i32, false),
        }
    };
    if scancode != 0 {
        Some(RemoteAction::Scancode { scancode, extended, pressed: t.pressed })
    } else if t.key == Key::Backspace {
        Some(RemoteAction::Key { keycode: 8, pressed: t.pressed })
    } else if t.key == Key::Enter {
        Some(RemoteAction::Key { keycode: 13, pressed: t.pressed })
    } else {
        None
    }
}

/// The message, if any, that forwards one key transition.
pub fn remote_key_action(t: KeyTransition, m: Modifiers) -> (r: Option<RemoteAction>)
    ensures
        r == key_action(t, m),
{
    let (scancode, extended) = if m.ctrl && m.alt && t.key == Key::End {
        (0x53i32, true)
    } else {
        match egui_key_to_scancode(t.key) {
            Some((code, ext)) => (code, ext || is_extended_scancode(code)),
            None => (0i32, false),
        }
    };
    if scancode != 0 {
        Some(RemoteAction::Scancode { scancode, extended, pressed: t.pressed })
    } else if t.key == Key::Backspace {
        Some(RemoteAction::Key { keycode: 8, pressed: t.pressed })
    } else if t.key == Key::Enter {
        Some(RemoteAction::Key { keycode: 13, pressed: t.pressed })
    } else {
        None
    }
}

/// `keys` without any occurrence of `k`, order kept.
pub open spec fn without_key(keys: Seq<Key>, k: Key) -> Seq<Key>
    decreases keys.len(),
{
    if keys.len() == 0 {
        keys
    } else {
        let rest = without_key(keys.drop_last(), k);
        if keys.last() == k {
            rest
        } else {
            rest.push(keys.last())
        }
    }
}

/// The keys held on the remote side after one transition: a press adds the
/// key once, a release removes it.
pub open spec fn track_key(keys: Seq<Key>, t: KeyTransition) -> Seq<Key> {
    if t.pressed {
        if keys.contains(t.key) {
            keys
        } else {
            keys.push(t.key)
        }
    } else {
        without_key(keys, t.key)
    }
}

pub open spec fn track_keys(keys: Seq<Key>, ts: Seq<KeyTransition>) -> Seq<Key>
    decreases ts.len(),
{
    if ts.len() == 0 {
        keys
    } else {
        track_key(track_keys(keys, ts.drop_last()), ts.last())
    }
}

/// The messages that forward a run of key transitions, in order.
pub open spec fn transition_actions(ts: Seq<KeyTransition>, m: Modifiers) -> Seq<RemoteAction>
    decreases ts.len(),
{
    if ts.len() == 0 {
        Seq::empty()
    } else {
        let before = transition_actions(ts.drop_last(), m);
        match key_action(ts.last(), m) {
            Some(a) => before.push(a),
            None => before,
        }
    }
}

/// The release of each of `keys`, in order.
pub open spec fn releases(keys: Seq<Key>) -> Seq<KeyTransition> {
    keys.map_values(|k: Key| KeyTransition { key: k, pressed: false })
}

proof fn lemma_without_key(keys: Seq<Key>, k: Key)
    ensures
        forall|j: Key| #[trigger] without_key(keys, k).contains(j) <==> keys.contains(j) && j != k,
        keys.no_duplicates() ==> without_key(keys, k).no_duplicates(),
    decreases keys.len(),
{
    if keys.len() > 0 {
        let rest = keys.drop_last();
        lemma_without_key(rest, k);
        assert forall|j: Key| #[trigger] keys.contains(j) <==> rest.contains(j) || keys.last() == j by {
            if keys.contains(j) {
                let i = choose|i: int| 0 <= i < keys.len() && keys[i] == j;
                if i < keys.len() - 1 {
                    assert(rest[i] == j);
                }
            }
            if rest.contains(j) {
                let i = choose|i: int| 0 <= i < rest.len() && rest[i] == j;
                assert(keys[i] == j);
            }
            if keys.last() == j {
                assert(keys[keys.len() - 1] == j);
            }
        }
        let w = without_key(rest, k);
        if keys.last() != k {
            assert forall|j: Key| #[trigger] w.push(keys.last()).contains(j) <==> w.contains(j) || keys.last() == j by {
                if w.push(keys.last()).contains(j) {
                    let i = choose|i: int| 0 <= i < w.len() + 1 && w.push(keys.last())[i] == j;
                    if i < w.len() {
                        assert(w[i] == j);
                    }
                }
                if w.contains(j) {
                    let i = choose|i: int| 0 <= i < w.len() && w[i] == j;
                    assert(w.push(keys.last())[i] == j);
                }
                if keys.last() == j {
                    assert(w.push(keys.last())[w.len() as int] == j);
                }
            }
            if keys.no_duplicates() {
                assert(rest.no_duplicates());
                assert(!rest.contains(keys.last())) by {
                    if rest.contains(keys.last()) {
                        let i = choose|i: int| 0 <= i < rest.len() && rest[i] == keys.last();
                        assert(keys[i] == keys[keys.len() - 1]);
                    }
                }
                assert(!w.contains(keys.last()));
                assert forall|a: int, b: int| 0 <= a < b < w.len() + 1 implies w.push(keys.last())[a] != w.push(keys.last())[b] by {
                    if b == w.len() {
                        assert(w[a] == w.push(keys.last())[a]);
                    }
                }
            }
        } else if keys.no_duplicates() {
            assert(rest.no_duplicates());
        }
    }
}

/// A key transition keeps the tracked keys free of repeats, and afterwards
/// the key is tracked exactly when the transition pressed it; other keys stay.
pub proof fn lemma_track_key(keys: Seq<Key>, t: KeyTransition)
    requires
        keys.no_duplicates(),
    ensures
        track_key(keys, t).no_duplicates(),
        track_key(keys, t).contains(t.key) == t.pressed,
        forall|j: Key| j != t.key ==> (#[trigger] track_key(keys, t).contains(j) <==> keys.contains(j)),
{
    lemma_without_key(keys, t.key);
    if t.pressed && !keys.contains(t.key) {
        let p = keys.push(t.key);
        assert(p[keys.len() as int] == t.key);
        assert forall|j: Key| j != t.key implies (#[trigger] p.contains(j) <==> keys.contains(j)) by {
            if p.contains(j) {
                let i = choose|i: int| 0 <= i < p.len() && p[i] == j;
                assert(keys[i] == j);
            }
            if keys.contains(j) {
                let i = choose|i: int| 0 <= i < keys.len() && keys[i] == j;
                assert(p[i] == j);
            }
        }
        assert forall|a: int, b: int| 0 <= a < b < p.len() implies p[a] != p[b] by {
            if b == keys.len() {
                assert(keys[a] == p[a]);
            }
        }
    }
}

proof fn lemma_track_keys_no_duplicates(keys: Seq<Key>, ts: Seq<KeyTransition>)
    requires
        keys.no_duplicates(),
    ensures
        track_keys(keys, ts).no_duplicates(),
    decreases ts.len(),
{
    if ts.len() > 0 {
        lemma_track_keys_no_duplicates(keys, ts.drop_last());
        lemma_track_key(track_keys(keys, ts.drop_last()), ts.last());
    }
}

fn contains_key(keys: &Vec<Key>, k: Key) -> (r: bool)
    ensures
        r == keys@.contains(k),
{
    let mut i: usize = 0;
    while i < keys.len()
        invariant
            0 <= i <= keys.len(),
            forall|j: int| 0 <= j < i ==> keys@[j] != k,
        decreases keys.len() - i,
    {
        if keys[i] == k {
            assert(keys@[i as int] == k);
            return true;
        }
        i += 1;
    }
    false
}

fn track_key_in(keys: &mut Vec<Key>, t: KeyTransition)
    ensures
        final(keys)@ == track_key(old(keys)@, t),
{
    if t.pressed {
        if !contains_key(keys, t.key) {
            keys.push(t.key);
        }
    } else {
        let mut out: Vec<Key> = Vec::new();
        let mut i: usize = 0;
        while i < keys.len()
            invariant
                0 <= i <= keys.len(),
                out@ == without_key(keys@.subrange(0, i as int), t.key),
            decreases keys.len() - i,
        {
            let k = keys[i];
            proof {
                assert(keys@.subrange(0, i + 1).drop_last() =~= keys@.subrange(0, i as int));
            }
            if k != t.key {
                out.push(k);
            }
            i += 1;
        }
        assert(keys@.subrange(0, keys.len() as int) =~= keys@);
        *keys = out;
    }
}

/// The keys the remote host holds, and the clipboard-shortcut bookkeeping that
/// turns toolkit events into key transitions.
pub struct RemoteKeys {
    keys_down: Vec<Key>,
    keyboard: RemoteKeyboardState,
}

impl RemoteKeys {
    /// The keys held on the remote side, each once, in the order they went down.
    pub closed spec fn held(&self) -> Seq<Key> {
        self.keys_down@
    }

    /// The clipboard-shortcut state (C, X, V held).
    pub closed spec fn clipboard(&self) -> Seq<bool> {
        self.keyboard@
    }

    pub closed spec fn wf(&self) -> bool {
        self.keys_down@.no_duplicates()
    }

    /// Nothing held.
    pub fn new() -> (r: Self)
        ensures
            r.wf(),
            r.held() == Seq::<Key>::empty(),
            r.clipboard() == seq![false, false, false],
    {
        let r = RemoteKeys { keys_down: Vec::new(), keyboard: RemoteKeyboardState::new() };
        assert(r.keys_down@ =~= Seq::<Key>::empty());
        r
    }

    /// Whether `key` is held on the remote side.
    pub fn is_held(&self, key: Key) -> (r: bool)
        ensures
            r == self.held().contains(key),
    {
        contains_key(&self.keys_down, key)
    }

    /// Forwards one toolkit input event: restores clipboard-shortcut key
    /// transitions, tracks held keys and maps each transition to its message.
    pub fn key_event(&mut self, event: &KeyboardEvent, modifiers: Modifiers) -> (acts: Vec<RemoteAction>)
        requires
            old(self).wf(),
        ensures
            final(self).wf(),
            ({
                let (clip, ts) = spec_transitions(old(self).clipboard(), event@);
                &&& final(self).clipboard() == clip
                &&& final(self).held() == track_keys(old(self).held(), ts)
                &&& acts@ == transition_actions(ts, modifiers)
            }),
    {
        let ts = self.keyboard.transitions(event);
        let ghost start = self.keys_down@;
        let ghost kb = self.keyboard@;
        let mut acts: Vec<RemoteAction> = Vec::new();
        let mut i: usize = 0;
        while i < ts.len()
            invariant
                0 <= i <= ts.len(),
                self.keys_down@ == track_keys(start, ts@.subrange(0, i as int)),
                acts@ == transition_actions(ts@.subrange(0, i as int), modifiers),
                self.keyboard@ == kb,
            decreases ts.len() - i,
        {
            let t = ts[i];
            proof {
                assert(ts@.subrange(0, i + 1).drop_last() =~= ts@.subrange(0, i as int));
            }
            track_key_in(&mut self.keys_down, t);
            match remote_key_action(t, modifiers) {
                Some(a) => acts.push(a),
                None => {},
            }
            i += 1;
        }
        assert(ts@.subrange(0, ts.len() as int) =~= ts@);
        proof {
            lemma_track_keys_no_duplicates(start, ts@);
        }
        acts
    }

    /// Releases every held key (in the order they went down) and forgets the
    /// clipboard-shortcut state.
    pub fn release(&mut self) -> (acts: Vec<RemoteAction>)
        ensures
            final(self).wf(),
            final(self).held() == Seq::<Key>::empty(),
            final(self).clipboard() == seq![false, false, false],
            acts@ == transition_actions(releases(old(self).held()), no_modifiers()),
    {
        let none = Modifiers { alt: false, ctrl: false, shift: false, mac_cmd: false, command: false };
        let mut acts: Vec<RemoteAction> = Vec::new();
        let mut i: usize = 0;
        while i < self.keys_down.len()
            invariant
                0 <= i <= self.keys_down.len(),
                none == no_modifiers(),
                acts@ == transition_actions(releases(self.keys_down@.subrange(0, i as int)), no_modifiers()),
            decreases self.keys_down.len() - i,
        {
            let t = KeyTransition { key: self.keys_down[i], pressed: false };
            proof {
                assert(releases(self.keys_down@.subrange(0, i + 1)).drop_last()
                    =~= releases(self.keys_down@.subrange(0, i as int)));
                assert(releases(self.keys_down@.subrange(0, i + 1)).last() == t);
            }
            match remote_key_action(t, none) {
                Some(a) => acts.push(a),
                None => {},
            }
            i += 1;
        }
        assert(self.keys_down@.subrange(0, self.keys_down.len() as int) =~= self.keys_down@);
        self.keys_down = Vec::new();
        self.keyboard = RemoteKeyboardState::new();
        assert(self.keys_down@ =~= Seq::<Key>::empty());
        acts
    }
}

/// Everything the active tab forwards to its remote session.
pub struct RemoteInput {
    pub pointer: PointerState,
    pub modifiers: ModifierState,
    pub keys: RemoteKeys,
}

impl RemoteInput {
    /// Nothing sent, nothing held.
    pub fn new() -> (r: Self)
        ensures
            r.pointer == initial_pointer(),
            r.modifiers == (ModifierState { shift: false, ctrl: false, alt: false, super_key: false }),
            r.keys.wf(),
            r.keys.held() == Seq::<Key>::empty(),
            r.keys.clipboard() == seq![false, false, false],
    {
        RemoteInput { pointer: PointerState::new(), modifiers: ModifierState::new(), keys: RemoteKeys::new() }
    }

    /// Releases everything the remote host may still hold (keys, then
    /// modifiers, then buttons) so that nothing stays pressed on the remote
    /// side once the view gives up input.
    pub fn release_all(&mut self) -> (acts: Vec<RemoteAction>)
        ensures
            final(self).keys.wf(),
            final(self).keys.held() == Seq::<Key>::empty(),
            final(self).keys.clipboard() == seq![false, false, false],
            final(self).modifiers == (ModifierState { shift: false, ctrl: false, alt: false, super_key: false }),
            final(self).pointer == spec_release_buttons(old(self).pointer).0,
            acts@ == transition_actions(releases(old(self).keys.held()), no_modifiers())
                + spec_sync_modifiers(old(self).modifiers, no_modifiers(), false).1
                + spec_release_buttons(old(self).pointer).1,
    {
        let mut acts = self.keys.release();
        let mut m = self.modifiers.release();
        acts.append(&mut m);
        let mut b = self.pointer.release_buttons();
        acts.append(&mut b);
        acts
    }
}

/// A fixed key combination the remote host can be sent from the menu.
#[derive(Clone, Copy, Debug, PartialEq, Eq, Structural)]
pub enum RemoteCommand {
    CtrlAltDel,
    PrintScreen,
    ContextMenu,
    VolumeUp,
    VolumeDown,
    Mute,
    BrightnessUp,
    BrightnessDown,
    /// Win+P.
    ProjectDisplay,
    PlayPause,
    Stop,
    NextTrack,
    PreviousTrack,
}

pub open spec fn scancode_msg(scancode: i32, extended: bool, pressed: bool) -> RemoteAction {
    RemoteAction::Scancode { scancode, extended, pressed }
}

/// Press and release of one extended key.
pub open spec fn tap(scancode: i32) -> Seq<RemoteAction> {
    seq![scancode_msg(scancode, true, true), scancode_msg(scancode, true, false)]
}

/// The scancode messages of a menu command.
pub open spec fn spec_command_actions(c: RemoteCommand) -> Seq<RemoteAction> {
    match c {
        RemoteCommand::CtrlAltDel => seq![
            scancode_msg(0x1D, true, true),
            scancode_msg(0x38, false, true),
            scancode_msg(0x53, true, true),
            scancode_msg(0x53, true, false),
            scancode_msg(0x38, false, false),
            scancode_msg(0x1D, true, false),
        ],
        RemoteCommand::PrintScreen => tap(0x37),
        RemoteCommand::ContextMenu => tap(0x5D),
        RemoteCommand::VolumeUp => tap(0x30),
        RemoteCommand::VolumeDown => tap(0x2E),
        RemoteCommand::Mute => tap(0x20),
        RemoteCommand::BrightnessUp => tap(0x67),
        RemoteCommand::BrightnessDown => tap(0x66),
        RemoteCommand::ProjectDisplay => seq![
            scancode_msg(0x5B, true, true),
            scancode_msg(0x19, false, true),
            scancode_msg(0x19, false, false),
            scancode_msg(0x5B, true, false),
        ],
        RemoteCommand::PlayPause => tap(0x22),
        RemoteCommand::Stop => tap(0x24),
        RemoteCommand::NextTrack => tap(0x19),
        RemoteCommand::PreviousTrack => tap(0x10),
    }
}

fn push_tap(acts: &mut Vec<RemoteAction>, scancode: i32)
    ensures
        final(acts)@ == old(acts)@ + tap(scancode),
{
    acts.push(RemoteAction::Scancode { scancode, extended: true, pressed: true });
    acts.push(RemoteAction::Scancode { scancode, extended: true, pressed: false });
    assert(acts@ =~= old(acts)@ + tap(scancode));
}

/// The messages that send a menu command to the remote host.
pub fn command_actions(c: RemoteCommand) -> (acts: Vec<RemoteAction>)
    ensures
        acts@ == spec_command_actions(c),
{
    let mut acts: Vec<RemoteAction> = Vec::new();
    match c {
        RemoteCommand::CtrlAltDel => {
            acts.push(RemoteAction::Scancode { scancode: 0x1D, extended: true, pressed: true });
            acts.push(RemoteAction::Scancode { scancode: 0x38, extended: false, pressed: true });
            acts.push(RemoteAction::Scancode { scancode: 0x53, extended: true, pressed: true });
            acts.push(RemoteAction::Scancode { scancode: 0x53, extended: true, pressed: false });
            acts.push(RemoteAction::Scancode { scancode: 0x38, extended: false, pressed: false });
            acts.push(RemoteAction::Scancode { scancode: 0x1D, extended: true, pressed: false });
        },
        RemoteCommand::PrintScreen => push_tap(&mut acts, 0x37),
        RemoteCommand::ContextMenu => push_tap(&mut acts, 0x5D),
        RemoteCommand::VolumeUp => push_tap(&mut acts, 0x30),
        RemoteCommand::VolumeDown => push_tap(&mut acts, 0x2E),
        RemoteCommand::Mute => push_tap(&mut acts, 0x20),
        RemoteCommand::BrightnessUp => push_tap(&mut acts, 0x67),
        RemoteCommand::BrightnessDown => push_tap(&mut acts, 0x66),
        RemoteCommand::ProjectDisplay => {
            acts.push(RemoteAction::Scancode { scancode: 0x5B, extended: true, pressed: true });
            acts.push(RemoteAction::Scancode { scancode: 0x19, extended: false, pressed: true });
            acts.push(RemoteAction::Scancode { scancode: 0x19, extended: false, pressed: false });
            acts.push(RemoteAction::Scancode { scancode: 0x5B, extended: true, pressed: false });
        },
        RemoteCommand::PlayPause => push_tap(&mut acts, 0x22),
        RemoteCommand::Stop => push_tap(&mut acts, 0x24),
        RemoteCommand::NextTrack => push_tap(&mut acts, 0x19),
        RemoteCommand::PreviousTrack => push_tap(&mut acts, 0x10),
    }
    assert(acts@ =~= spec_command_actions(c));
    acts
}

} // verus!
