//! Bookkeeping of the concurrent remote sessions (one per desktop tab) and the
//! routing of the single-session input API to the active session.

use std::collections::HashMap;

use vstd::prelude::*;

use crate::input::{
    RdpInputEvent, VncInputEvent, rdp_pointer_flags, vnc_button_mask, rdp_wheel_events, vnc_wheel_events,
    rdp_key_event, vnc_key_event, key_flags, scancode_to_keysym, spec_rdp_pointer_flags,
    spec_vnc_button_mask, spec_rdp_wheel_events, spec_vnc_wheel_events, spec_rdp_key_event,
    spec_vnc_key_event, spec_key_flags, spec_scancode_to_keysym,
};

verus! {

broadcast use vstd::std_specs::hash::group_hash_axioms;

/// The protocol of a session, with the protocol state that input routing needs.
#[derive(Clone, Copy, Debug, PartialEq, Eq, Structural)]
pub enum SessionKind {
    Rdp,
    /// VNC sends the full button state with every pointer event.
    Vnc { button_mask: u8 },
}

/// A registered session: its protocol state and the caller's handle to it
/// (the channels and flags through which the caller drives the connection).
pub struct Session<H> {
    pub kind: SessionKind,
    pub handle: H,
}

/// The sessions by id, their ids in registration order, the next id to hand
/// out and the session that receives input.
pub struct SessionRegistry<H> {
    sessions: HashMap<u64, Session<H>>,
    order: Vec<u64>,
    next_id: u64,
    active_id: u64,
}

/// The input events to deliver to one session.
#[derive(Clone, Debug, PartialEq, Eq)]
pub enum SessionInput {
    Rdp(Vec<RdpInputEvent>),
    Vnc(Vec<VncInputEvent>),
}

/// The input events for a session, addressed by its id.
#[derive(Clone, Debug, PartialEq, Eq)]
pub struct RoutedInput {
    pub session_id: u64,
    pub input: SessionInput,
}

/// The mathematical value of [`SessionInput`].
pub ghost enum SessionInputView {
    Rdp(Seq<RdpInputEvent>),
    Vnc(Seq<VncInputEvent>),
}

impl View for SessionInput {
    type V = SessionInputView;

    open spec fn view(&self) -> SessionInputView {
        match self {
            SessionInput::Rdp(v) => SessionInputView::Rdp(v@),
            SessionInput::Vnc(v) => SessionInputView::Vnc(v@),
        }
    }
}

impl<H> SessionRegistry<H> {
    /// The ids of the registered sessions, in registration order.
    pub closed spec fn ids(&self) -> Seq<u64> {
        self.order@
    }

    /// The protocol state of each registered session, by id.
    pub closed spec fn kinds(&self) -> Map<u64, SessionKind> {
        self.sessions@.map_values(|s: Session<H>| s.kind)
    }

    /// The caller's handle of each registered session, by id.
    pub closed spec fn handles(&self) -> Map<u64, H> {
        self.sessions@.map_values(|s: Session<H>| s.handle)
    }

    /// The id the next registered session receives.
    pub closed spec fn next_id(&self) -> u64 {
        self.next_id
    }

    /// The id of the session that receives input; 0 means none.
    pub closed spec fn active_id(&self) -> u64 {
        self.active_id
    }

    /// Ids start at 1, increase in registration order and stay below the next
    /// id; the sessions by id are exactly those of the ordered ids.
    pub closed spec fn wf(&self) -> bool {
        &&& 1 <= self.next_id
        &&& forall|i: int| 0 <= i < self.order@.len() ==> 1 <= #[trigger] self.order@[i] < self.next_id
        &&& forall|i: int, j: int| 0 <= i < j < self.order@.len() ==> self.order@[i] < self.order@[j]
        &&& forall|k: u64| #[trigger] self.sessions@.contains_key(k) <==> self.order@.contains(k)
    }

    /// Every registry view agrees on the registered ids, which are positive,
    /// increasing and below the next id.
    pub proof fn lemma_wf_facts(&self)
        requires
            self.wf(),
        ensures
            self.kinds().dom() == self.ids().to_set(),
            self.handles().dom() == self.ids().to_set(),
            self.next_id() >= 1,
            forall|i: int| 0 <= i < self.ids().len() ==> 1 <= #[trigger] self.ids()[i] < self.next_id(),
            forall|i: int, j: int| 0 <= i < j < self.ids().len() ==> self.ids()[i] < self.ids()[j],
    {
        assert(self.kinds().dom() =~= self.ids().to_set());
        assert(self.handles().dom() =~= self.ids().to_set());
    }

    /// Whether a session with this id is registered.
    pub open spec fn contains(&self, id: u64) -> bool {
        self.ids().contains(id)
    }

    /// An empty registry; ids start at 1 and no session is active.
    pub fn new() -> (r: Self)
        ensures
            r.wf(),
            r.ids() == Seq::<u64>::empty(),
            r.kinds() == Map::<u64, SessionKind>::empty(),
            r.handles() == Map::<u64, H>::empty(),
            r.next_id() == 1,
            r.active_id() == 0,
    {
        let r = SessionRegistry { sessions: HashMap::new(), order: Vec::new(), next_id: 1, active_id: 0 };
        assert(r.ids() =~= Seq::<u64>::empty());
        assert(r.kinds() =~= Map::<u64, SessionKind>::empty());
        assert(r.handles() =~= Map::<u64, H>::empty());
        r
    }

    /// The id the next registered session gets.
    pub fn next_session_id(&self) -> (r: u64)
        ensures
            r == self.next_id(),
    {
        self.next_id
    }

    /// The caller's handle of the session with this id, if it is registered.
    pub fn session_handle(&self, id: u64) -> (r: Option<&H>)
        requires
            self.wf(),
        ensures
            r is None <==> !self.contains(id),
            r matches Some(h) ==> *h == self.handles()[id],
    {
        match self.sessions.get(&id) {
            Some(s) => Some(&s.handle),
            None => None,
        }
    }
}

/// Registers a new session and makes it the active one; returns its id.
pub fn register_session<H>(registry: &mut SessionRegistry<H>, kind: SessionKind, handle: H) -> (id: u64)
    requires
        old(registry).wf(),
        old(registry).next_id() < u64::MAX,
    ensures
        final(registry).wf(),
        id == old(registry).next_id(),
        !old(registry).contains(id),
        final(registry).next_id() == id + 1,
        final(registry).active_id() == id,
        final(registry).ids() == old(registry).ids().push(id),
        final(registry).kinds() == old(registry).kinds().insert(id, kind),
        final(registry).handles() == old(registry).handles().insert(id, handle),
{
    let id = registry.next_id;
    registry.next_id = id + 1;
    registry.sessions.insert(id, Session { kind, handle });
    registry.order.push(id);
    registry.active_id = id;
    assert(registry.kinds() =~= old(registry).kinds().insert(id, kind));
    assert(registry.handles() =~= old(registry).handles().insert(id, handle));
    assert forall|k: u64| #[trigger] registry.sessions@.contains_key(k) <==> registry.order@.contains(k) by {
        if k != id {
            if old(registry).order@.contains(k) {
                let j = choose|j: int| 0 <= j < old(registry).order@.len() && old(registry).order@[j] == k;
                assert(registry.order@[j] == k);
            }
            if registry.order@.contains(k) {
                let j = choose|j: int| 0 <= j < registry.order@.len() && registry.order@[j] == k;
                assert(j < old(registry).order@.len());
                assert(old(registry).order@[j] == k);
            }
        } else {
            assert(registry.order@[registry.order@.len() - 1] == id);
        }
    }
    id
}

/// Route subsequent mouse/keyboard input to the given session (desktop multi-tab).
pub fn set_active_session<H>(registry: &mut SessionRegistry<H>, id: u64)
    requires
        old(registry).wf(),
    ensures
        final(registry).wf(),
        final(registry).active_id() == id,
        final(registry).ids() == old(registry).ids(),
        final(registry).kinds() == old(registry).kinds(),
        final(registry).handles() == old(registry).handles(),
        final(registry).next_id() == old(registry).next_id(),
{
    registry.active_id = id;
}

/// The position of `id` among the ordered ids, if it is registered.
fn position_of(order: &Vec<u64>, id: u64) -> (r: Option<usize>)
    ensures
        r matches Some(i) ==> i < order@.len() && order@[i as int] == id,
        r is None ==> !order@.contains(id),
{
    let mut i: usize = 0;
    while i < order.len()
        invariant
            i <= order@.len(),
            forall|j: int| 0 <= j < i ==> order@[j] != id,
        decreases order.len() - i,
    {
        if order[i] == id {
            return Some(i);
        }
        i = i + 1;
    }
    None
}

/// Disconnect a single session by id: it leaves the registry and its handle is
/// returned so the caller can stop it. When it was the active session, another
/// registered session (the earliest one) or none becomes active.
pub fn disconnect_session_id<H>(registry: &mut SessionRegistry<H>, id: u64) -> (removed: Option<H>)
    requires
        old(registry).wf(),
    ensures
        final(registry).wf(),
        final(registry).next_id() == old(registry).next_id(),
        id == 0 || !old(registry).contains(id) ==> {
            &&& removed is None
            &&& final(registry).ids() == old(registry).ids()
            &&& final(registry).kinds() == old(registry).kinds()
            &&& final(registry).handles() == old(registry).handles()
        },
        id != 0 && old(registry).contains(id) ==> {
            &&& removed == Some(old(registry).handles()[id])
            &&& final(registry).ids() == old(registry).ids().remove(old(registry).ids().index_of(id))
            &&& final(registry).kinds() == old(registry).kinds().remove(id)
            &&& final(registry).handles() == old(registry).handles().remove(id)
        },
        !final(registry).contains(id) || id == 0,
        id == 0 || old(registry).active_id() != id ==> final(registry).active_id() == old(registry).active_id(),
        id != 0 && old(registry).active_id() == id ==> {
            if final(registry).ids().len() == 0 {
                final(registry).active_id() == 0
            } else {
                final(registry).active_id() == final(registry).ids()[0]
            }
        },
{
    if id == 0 {
        return None;
    }
    let removed = match position_of(&registry.order, id) {
        Some(i) => {
            let ghost old_order = registry.order@;
            proof {
                old_order.index_of_first_ensures(id);
                assert(old_order.index_of(id) == i as int) by {
                    let k = old_order.index_of(id);
                    assert(old_order[k] == id);
                    if k < i {
                        assert(old_order[k] < old_order[i as int]);
                    } else if k > i {
                        assert(old_order[i as int] < old_order[k]);
                    }
                }
            }
            registry.order.remove(i);
            assert(registry.order@ =~= old_order.remove(i as int));
            let s = registry.sessions.remove(&id);
            assert(old(registry).sessions@.contains_key(id));
            assert(registry.kinds() =~= old(registry).kinds().remove(id));
            assert(registry.handles() =~= old(registry).handles().remove(id));
            assert forall|a: int, b: int| 0 <= a < b < registry.order@.len() implies registry.order@[a]
                < registry.order@[b] by {
                if a < i {
                    if b >= i {
                        assert(registry.order@[b] == old_order[b + 1]);
                    }
                } else {
                    assert(registry.order@[a] == old_order[a + 1]);
                    assert(registry.order@[b] == old_order[b + 1]);
                }
            }
            assert forall|k: int| 0 <= k < registry.order@.len() implies 1 <= #[trigger] registry.order@[k]
                < registry.next_id by {
                if k >= i {
                    assert(registry.order@[k] == old_order[k + 1]);
                }
            }
            assert forall|k: u64| #[trigger] registry.sessions@.contains_key(k) <==> registry.order@.contains(k) by {
                if registry.order@.contains(k) {
                    let j = choose|j: int| 0 <= j < registry.order@.len() && registry.order@[j] == k;
                    if j < i {
                        assert(old_order[j] == k);
                        assert(old_order[j] < old_order[i as int]);
                    } else {
                        assert(old_order[j + 1] == k);
                        assert(old_order[i as int] < old_order[j + 1]);
                    }
                    assert(old_order.contains(k));
                }
                if registry.sessions@.contains_key(k) {
                    assert(k != id);
                    assert(old_order.contains(k));
                    let j = choose|j: int| 0 <= j < old_order.len() && old_order[j] == k;
                    if j < i {
                        assert(registry.order@[j] == k);
                    } else {
                        assert(j != i);
                        assert(registry.order@[j - 1] == k);
                    }
                }
            }
            match s {
                Some(sess) => Some(sess.handle),
                None => None,
            }
        },
        None => None,
    };
    if registry.active_id == id {
        registry.active_id = if registry.order.len() > 0 { registry.order[0] } else { 0 };
    }
    removed
}

/// Disconnect every session: all leave the registry, their handles are returned
/// in registration order, and no session is active any more.
pub fn disconnect_session<H>(registry: &mut SessionRegistry<H>) -> (removed: Vec<H>)
    requires
        old(registry).wf(),
    ensures
        final(registry).wf(),
        removed@ == old(registry).ids().map_values(|id: u64| old(registry).handles()[id]),
        final(registry).ids() == Seq::<u64>::empty(),
        final(registry).kinds() == Map::<u64, SessionKind>::empty(),
        final(registry).handles() == Map::<u64, H>::empty(),
        final(registry).active_id() == 0,
        final(registry).next_id() == old(registry).next_id(),
{
    let mut order: Vec<u64> = Vec::new();
    std::mem::swap(&mut order, &mut registry.order);
    let ghost ids = order@;
    let ghost handles = old(registry).handles();
    let mut removed: Vec<H> = Vec::new();
    let mut k: usize = 0;
    assert(ids.skip(0) =~= ids);
    assert(registry.order@ =~= Seq::<u64>::empty());
    while k < order.len()
        invariant
            order@ == ids,
            registry.order@ == Seq::<u64>::empty(),
            registry.next_id == old(registry).next_id,
            1 <= registry.next_id,
            k <= ids.len(),
            handles == old(registry).handles(),
            forall|i: int, j: int| 0 <= i < j < ids.len() ==> ids[i] < ids[j],
            forall|i: int| 0 <= i < ids.len() ==> old(registry).sessions@.contains_key(#[trigger] ids[i]),
            forall|id: u64| #[trigger] registry.sessions@.contains_key(id) ==> ids.skip(k as int).contains(id),
            forall|i: int| k <= i < ids.len() ==> registry.sessions@.contains_key(#[trigger] ids[i])
                && registry.sessions@[ids[i]] == old(registry).sessions@[ids[i]],
            removed@ == ids.take(k as int).map_values(|id: u64| handles[id]),
        decreases ids.len() - k,
    {
        let id = order[k];
        let ghost before = registry.sessions@;
        let s = registry.sessions.remove(&id);
        match s {
            Some(sess) => {
                removed.push(sess.handle);
            },
            None => {
                assert(false);
            },
        }
        assert(ids.take(k as int + 1).map_values(|id: u64| handles[id]) =~= ids.take(k as int).map_values(
            |id: u64| handles[id],
        ).push(handles[id]));
        assert forall|i: int| k + 1 <= i < ids.len() implies registry.sessions@.contains_key(#[trigger] ids[i])
            && registry.sessions@[ids[i]] == old(registry).sessions@[ids[i]] by {
            assert(ids[i] != id);
        }
        assert forall|x: u64| #[trigger] registry.sessions@.contains_key(x) implies ids.skip(k as int + 1).contains(x) by {
            assert(before.contains_key(x));
            let j = choose|j: int| 0 <= j < ids.skip(k as int).len() && ids.skip(k as int)[j] == x;
            assert(j != 0);
            assert(ids.skip(k as int + 1)[j - 1] == x);
        }
        k = k + 1;
    }
    assert(ids.take(ids.len() as int) =~= ids);
    assert(registry.sessions@ =~= Map::<u64, Session<H>>::empty()) by {
        assert forall|x: u64| !registry.sessions@.contains_key(x) by {
            if registry.sessions@.contains_key(x) {
                assert(ids.skip(k as int).len() == 0);
            }
        }
    }
    registry.active_id = 0;
    assert(registry.ids() =~= Seq::<u64>::empty());
    assert(registry.kinds() =~= Map::<u64, SessionKind>::empty());
    assert(registry.handles() =~= Map::<u64, H>::empty());
    removed
}

/// Whether input is routed somewhere: a session is active and registered.
pub open spec fn has_active<H>(registry: &SessionRegistry<H>) -> bool {
    registry.active_id() != 0 && registry.contains(registry.active_id())
}


/// The protocol events of a mouse action for a session of the given kind, and its new kind.
pub open spec fn spec_mouse_input(kind: SessionKind, x: i32, y: i32, action: i32) -> (SessionInputView, SessionKind) {
    match kind {
        SessionKind::Rdp => (
            SessionInputView::Rdp(seq![RdpInputEvent::Mouse {
                flags: spec_rdp_pointer_flags(action),
                wheel_rotation_units: 0,
                x: x as u16,
                y: y as u16,
            }]),
            kind,
        ),
        SessionKind::Vnc { button_mask } => {
            let mask = spec_vnc_button_mask(button_mask, action);
            (
                SessionInputView::Vnc(seq![VncInputEvent::Pointer { x: x as u16, y: y as u16, buttons: mask }]),
                SessionKind::Vnc { button_mask: mask },
            )
        },
    }
}

/// The protocol events of a vertical wheel action for a session of the given kind.
pub open spec fn spec_wheel_input(kind: SessionKind, x: i32, y: i32, units: i32) -> SessionInputView {
    match kind {
        SessionKind::Rdp => SessionInputView::Rdp(spec_rdp_wheel_events(x, y, units)),
        SessionKind::Vnc { button_mask } => SessionInputView::Vnc(spec_vnc_wheel_events(x, y, units, button_mask)),
    }
}

/// The protocol events of a character key for a session of the given kind.
pub open spec fn spec_key_input(kind: SessionKind, keycode: i32, pressed: i32) -> SessionInputView {
    match kind {
        SessionKind::Rdp => SessionInputView::Rdp(seq![spec_rdp_key_event(keycode, pressed)]),
        SessionKind::Vnc { .. } => SessionInputView::Vnc(seq![spec_vnc_key_event(keycode, pressed)]),
    }
}

/// The protocol events of a hardware scancode for a session of the given kind; VNC
/// drops scancodes without a keysym.
pub open spec fn spec_scancode_input(kind: SessionKind, scancode: i32, is_extended: bool, pressed: i32) -> SessionInputView {
    match kind {
        SessionKind::Rdp => SessionInputView::Rdp(
            seq![RdpInputEvent::Keyboard { flags: spec_key_flags(pressed, is_extended), code: scancode as u8 }],
        ),
        SessionKind::Vnc { .. } => match spec_scancode_to_keysym(scancode as u32) {
            Some(keysym) => SessionInputView::Vnc(seq![VncInputEvent::Key { keysym, down: pressed != 0 }]),
            None => SessionInputView::Vnc(Seq::empty()),
        },
    }
}

/// The active session's protocol state, when input is routed somewhere.
fn active_kind<H>(registry: &SessionRegistry<H>) -> (r: Option<SessionKind>)
    requires
        registry.wf(),
    ensures
        r is None <==> !has_active(registry),
        r matches Some(k) ==> k == registry.kinds()[registry.active_id()],
{
    if registry.active_id == 0 {
        return None;
    }
    match registry.sessions.get(&registry.active_id) {
        Some(s) => Some(s.kind),
        None => None,
    }
}

/// action: 0 = move, 1 = left down, 2 = left up, 3 = right down, 4 = right up.
/// Builds the pointer event for the active session (tracking VNC's button mask);
/// `None` when no session is active.
pub fn send_mouse_event<H>(registry: &mut SessionRegistry<H>, x: i32, y: i32, action: i32) -> (r: Option<RoutedInput>)
    requires
        old(registry).wf(),
    ensures
        final(registry).wf(),
        final(registry).ids() == old(registry).ids(),
        final(registry).handles() == old(registry).handles(),
        final(registry).active_id() == old(registry).active_id(),
        final(registry).next_id() == old(registry).next_id(),
        r is None <==> !has_active(old(registry)),
        r is None ==> final(registry).kinds() == old(registry).kinds(),
        r matches Some(ri) ==> {
            let id = old(registry).active_id();
            let (events, kind) = spec_mouse_input(old(registry).kinds()[id], x, y, action);
            &&& ri.session_id == id
            &&& ri.input@ == events
            &&& final(registry).kinds() == old(registry).kinds().insert(id, kind)
        },
{
    let kind = match active_kind(registry) {
        Some(k) => k,
        None => return None,
    };
    let id = registry.active_id;
    let input = match kind {
        SessionKind::Rdp => {
            let ev = RdpInputEvent::Mouse { flags: rdp_pointer_flags(action), wheel_rotation_units: 0, x: x as u16, y: y as u16 };
            let v = vec![ev];
            assert(v@ =~= seq![ev]);
            assert(registry.kinds() =~= old(registry).kinds().insert(id, kind));
            SessionInput::Rdp(v)
        },
        SessionKind::Vnc { button_mask } => {
            let mask = vnc_button_mask(button_mask, action);
            let ev = VncInputEvent::Pointer { x: x as u16, y: y as u16, buttons: mask };
            match registry.sessions.remove(&id) {
                Some(s) => {
                    let new_kind = SessionKind::Vnc { button_mask: mask };
                    registry.sessions.insert(id, Session { kind: new_kind, handle: s.handle });
                    assert(registry.kinds() =~= old(registry).kinds().insert(id, new_kind));
                    assert(registry.handles() =~= old(registry).handles());
                    assert forall|k: u64| #[trigger] registry.sessions@.contains_key(k) <==> registry.order@.contains(k) by {
                        assert(registry.sessions@.contains_key(k) == old(registry).sessions@.contains_key(k));
                    }
                },
                None => {
                    assert(false);
                },
            }
            let v = vec![ev];
            assert(v@ =~= seq![ev]);
            SessionInput::Vnc(v)
        },
    };
    Some(RoutedInput { session_id: registry.active_id, input })
}

/// Builds the vertical wheel events for the active session; nothing for a zero delta.
pub fn send_mouse_wheel_event<H>(registry: &SessionRegistry<H>, x: i32, y: i32, units: i32) -> (r: Option<RoutedInput>)
    requires
        registry.wf(),
    ensures
        r is None <==> units == 0 || !has_active(registry),
        r matches Some(ri) ==> {
            &&& ri.session_id == registry.active_id()
            &&& ri.input@ == spec_wheel_input(registry.kinds()[registry.active_id()], x, y, units)
        },
{
    if units == 0 {
        return None;
    }
    let kind = match active_kind(registry) {
        Some(k) => k,
        None => return None,
    };
    let input = match kind {
        SessionKind::Rdp => SessionInput::Rdp(rdp_wheel_events(x, y, units)),
        SessionKind::Vnc { button_mask } => SessionInput::Vnc(vnc_wheel_events(x, y, units, button_mask)),
    };
    Some(RoutedInput { session_id: registry.active_id, input })
}

/// Builds the event of a character key (`pressed != 0` for a press) for the active session.
pub fn send_key_event<H>(registry: &SessionRegistry<H>, keycode: i32, pressed: i32) -> (r: Option<RoutedInput>)
    requires
        registry.wf(),
    ensures
        r is None <==> !has_active(registry),
        r matches Some(ri) ==> {
            &&& ri.session_id == registry.active_id()
            &&& ri.input@ == spec_key_input(registry.kinds()[registry.active_id()], keycode, pressed)
        },
{
    let kind = match active_kind(registry) {
        Some(k) => k,
        None => return None,
    };
    let input = match kind {
        SessionKind::Rdp => {
            let ev = rdp_key_event(keycode, pressed);
            let v = vec![ev];
            assert(v@ =~= seq![ev]);
            SessionInput::Rdp(v)
        },
        SessionKind::Vnc { .. } => {
            let ev = vnc_key_event(keycode, pressed);
            let v = vec![ev];
            assert(v@ =~= seq![ev]);
            SessionInput::Vnc(v)
        },
    };
    Some(RoutedInput { session_id: registry.active_id, input })
}

/// Builds the event of a hardware scancode (`pressed != 0` for a press) for the active session.
pub fn send_scancode_event<H>(registry: &SessionRegistry<H>, scancode: i32, is_extended: bool, pressed: i32) -> (r: Option<RoutedInput>)
    requires
        registry.wf(),
    ensures
        r is None <==> !has_active(registry),
        r matches Some(ri) ==> {
            &&& ri.session_id == registry.active_id()
            &&& ri.input@ == spec_scancode_input(registry.kinds()[registry.active_id()], scancode, is_extended, pressed)
        },
{
    let kind = match active_kind(registry) {
        Some(k) => k,
        None => return None,
    };
    let input = match kind {
        SessionKind::Rdp => {
            let ev = RdpInputEvent::Keyboard { flags: key_flags(pressed, is_extended), code: scancode as u8 };
            let v = vec![ev];
            assert(v@ =~= seq![ev]);
            SessionInput::Rdp(v)
        },
        SessionKind::Vnc { .. } => {
            match scancode_to_keysym(scancode as u32, is_extended) {
                Some(keysym) => {
                    let ev = VncInputEvent::Key { keysym, down: pressed != 0 };
                    let v = vec![ev];
                    assert(v@ =~= seq![ev]);
                    SessionInput::Vnc(v)
                },
                None => {
                    let v: Vec<VncInputEvent> = Vec::new();
                    assert(v@ =~= Seq::<VncInputEvent>::empty());
                    SessionInput::Vnc(v)
                },
            }
        },
    };
    Some(RoutedInput { session_id: registry.active_id, input })
}

} // verus!
