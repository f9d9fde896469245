//! Host keyboard capture while the remote view owns input: the decisions of
//! a capture request, the Super-key state read from X11 key maps, and the
//! Super-key and inhibitor state kept for a Wayland seat.

use vstd::prelude::*;

verus! {

/// Linux input code of the left Super (Meta) key.
pub const KEY_LEFTMETA: u32 = 125;

/// Linux input code of the right Super (Meta) key.
pub const KEY_RIGHTMETA: u32 = 126;

/// Whether bit `keycode` of a 256-bit X11 key map is set.
pub open spec fn keymap_bit(keymap: Seq<u8>, keycode: u8) -> bool {
    (keymap[(keycode / 8) as int] >> (keycode % 8)) & 1u8 == 1u8
}

/// Whether `keycode` is held in an X11 key map (keycode 0 means "no key").
pub fn keycode_is_pressed(keymap: &[u8; 32], keycode: u8) -> (r: bool)
    ensures
        r == (keycode != 0 && keymap_bit(keymap@, keycode)),
{
    if keycode == 0 {
        return false;
    }
    let byte = keymap[(keycode / 8) as usize];
    let shift = keycode % 8;
    let r = byte & (1u8 << shift) != 0;
    assert(r == ((byte >> shift) & 1u8 == 1u8)) by (bit_vector)
        requires
            shift < 8,
            r == (byte & (1u8 << shift) != 0),
    ;
    r
}

/// Whether either Super key is held in an X11 key map.
pub fn x11_super_pressed(keymap: &[u8; 32], super_keycodes: [u8; 2]) -> (r: bool)
    ensures
        r == ((super_keycodes[0] != 0 && keymap_bit(keymap@, super_keycodes[0]))
            || (super_keycodes[1] != 0 && keymap_bit(keymap@, super_keycodes[1]))),
{
    keycode_is_pressed(keymap, super_keycodes[0]) || keycode_is_pressed(keymap, super_keycodes[1])
}

/// Keyboard state of a Wayland seat as far as capture needs it.
pub struct WaylandState {
    /// The compositor reports shortcut inhibition as active.
    pub active: bool,
    /// Left and right Super key held.
    pub super_keys_down: [bool; 2],
}

impl Default for WaylandState {
    fn default() -> (r: Self)
        ensures
            !r.active,
            r.super_keys_down@ == seq![false, false],
    {
        let r = WaylandState { active: false, super_keys_down: [false, false] };
        assert(r.super_keys_down@ =~= seq![false, false]);
        r
    }
}

/// The Super-key slots after a key event: the left and right Super keys
/// update their slot, other keys change nothing.
pub open spec fn super_keys_after(down: Seq<bool>, key: u32, pressed: bool) -> Seq<bool> {
    if key == KEY_LEFTMETA {
        down.update(0, pressed)
    } else if key == KEY_RIGHTMETA {
        down.update(1, pressed)
    } else {
        down
    }
}

impl WaylandState {
    /// Records a key press or release.
    pub fn set_super_key(&mut self, key: u32, pressed: bool)
        ensures
            final(self).active == old(self).active,
            final(self).super_keys_down@ == super_keys_after(old(self).super_keys_down@, key, pressed),
    {
        if key == KEY_LEFTMETA {
            self.super_keys_down[0] = pressed;
        } else if key == KEY_RIGHTMETA {
            self.super_keys_down[1] = pressed;
        }
        assert(self.super_keys_down@ =~= super_keys_after(old(self).super_keys_down@, key, pressed));
    }

    /// The keyboard entered the surface with `keys` already held.
    pub fn keyboard_enter(&mut self, keys: &[u32])
        ensures
            final(self).active == old(self).active,
            final(self).super_keys_down@ == seq![keys@.contains(KEY_LEFTMETA), keys@.contains(KEY_RIGHTMETA)],
    {
        self.super_keys_down = [false, false];
        let mut i: usize = 0;
        while i < keys.len()
            invariant
                0 <= i <= keys.len(),
                self.active == old(self).active,
                self.super_keys_down@ == seq![
                    keys@.subrange(0, i as int).contains(KEY_LEFTMETA),
                    keys@.subrange(0, i as int).contains(KEY_RIGHTMETA),
                ],
            decreases keys.len() - i,
        {
            let ghost before = keys@.subrange(0, i as int);
            let ghost after = keys@.subrange(0, i + 1);
            assert forall|k: u32| #[trigger] after.contains(k) <==> before.contains(k) || keys@[i as int] == k by {
                if after.contains(k) {
                    let j = choose|j: int| 0 <= j < after.len() && after[j] == k;
                    if j < i {
                        assert(before[j] == k);
                    }
                }
                if before.contains(k) {
                    let j = choose|j: int| 0 <= j < before.len() && before[j] == k;
                    assert(after[j] == k);
                }
                if keys@[i as int] == k {
                    assert(after[i as int] == k);
                }
            }
            self.set_super_key(keys[i], true);
            i += 1;
        }
        assert(keys@.subrange(0, keys.len() as int) =~= keys@);
    }

    /// The keyboard left the surface: no key is known to be held.
    pub fn keyboard_leave(&mut self)
        ensures
            final(self).active == old(self).active,
            final(self).super_keys_down@ == seq![false, false],
    {
        self.super_keys_down = [false, false];
        assert(self.super_keys_down@ =~= seq![false, false]);
    }

    /// Whether either Super key is held.
    pub fn super_pressed(&self) -> (r: bool)
        requires
            self.super_keys_down@.len() == 2,
        ensures
            r == (self.super_keys_down@[0] || self.super_keys_down@[1]),
    {
        self.super_keys_down[0] || self.super_keys_down[1]
    }
}

/// The first answer to a capture request.
#[derive(Clone, Copy, Debug, PartialEq, Eq, Structural)]
pub enum CaptureStep {
    /// The request is answered without touching the window system: whether
    /// the requested state is effective.
    Done(bool),
    /// The window-system backend must grab or release the keyboard; its
    /// outcome goes to [`CaptureGate::finish`].
    CallBackend,
}

/// Remembers a failed capture so that it is not retried until the remote view
/// has released input once.
#[derive(Clone, Copy, Debug, PartialEq, Eq, Structural)]
pub struct CaptureGate {
    pub capture_failed: bool,
}

/// A capture request (`captured` says whether to capture or release) against
/// a backend that may or may not support capturing.
pub open spec fn spec_capture_begin(g: CaptureGate, captured: bool, supported: bool) -> (CaptureGate, CaptureStep) {
    if captured && g.capture_failed {
        (g, CaptureStep::Done(false))
    } else {
        let g1 = if !captured { CaptureGate { capture_failed: false } } else { g };
        if !supported {
            (g1, CaptureStep::Done(!captured))
        } else {
            (g1, CaptureStep::CallBackend)
        }
    }
}

/// The backend's outcome: the request is effective exactly when the backend
/// succeeded, and a failed capture is remembered.
pub open spec fn spec_capture_finish(g: CaptureGate, captured: bool, backend_ok: bool) -> (CaptureGate, bool) {
    if backend_ok {
        (g, true)
    } else if captured {
        (CaptureGate { capture_failed: true }, false)
    } else {
        (g, false)
    }
}

impl CaptureGate {
    /// No capture has failed yet.
    pub fn new() -> (r: Self)
        ensures
            !r.capture_failed,
    {
        CaptureGate { capture_failed: false }
    }

    /// Starts a capture (`captured`) or release request. An unsupported
    /// backend never claims that input is captured.
    pub fn begin(&mut self, captured: bool, supported: bool) -> (r: CaptureStep)
        ensures
            (*final(self), r) == spec_capture_begin(*old(self), captured, supported),
    {
        if captured && self.capture_failed {
            return CaptureStep::Done(false);
        }
        if !captured {
            self.capture_failed = false;
        }
        if !supported {
            CaptureStep::Done(!captured)
        } else {
            CaptureStep::CallBackend
        }
    }

    /// Completes a request that went to the backend.
    pub fn finish(&mut self, captured: bool, backend_ok: bool) -> (r: bool)
        ensures
            (*final(self), r) == spec_capture_finish(*old(self), captured, backend_ok),
    {
        if backend_ok {
            true
        } else {
            if captured {
                self.capture_failed = true;
            }
            false
        }
    }
}

/// After a capture attempt failed, further capture requests are refused
/// without touching the backend, until a release request comes; the capture
/// request after that release goes to the backend again.
pub proof fn lemma_failed_capture_waits_for_release(g: CaptureGate, supported: bool, supported2: bool)
    ensures
        ({
            let (g1, ok) = spec_capture_finish(g, true, false);
            let (g2, step) = spec_capture_begin(g1, true, supported);
            let (g3, _) = spec_capture_begin(g1, false, supported);
            let (_, retry) = spec_capture_begin(g3, true, supported2);
            &&& !ok
            &&& step == CaptureStep::Done(false)
            &&& g2 == g1
            &&& retry == (if supported2 { CaptureStep::CallBackend } else { CaptureStep::Done(false) })
        }),
{
}

} // verus!
