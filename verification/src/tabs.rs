//! The tab strip of the desktop client: one connection form (and optional
//! live session) per tab, which tab is active, and the effects that selecting,
//! opening and closing tabs has on the backend sessions and the window chrome.

use vstd::prelude::*;

verus! {

/// One tab: its stable id, the backend session it owns, and the caller's data.
pub struct TabSlot<T> {
    pub tab_id: u64,
    pub session: Option<u64>,
    pub data: T,
}

/// A side effect that the caller performs after a tab-strip operation.
#[derive(Clone, Copy, Debug, PartialEq, Eq, Structural)]
pub enum TabEffect {
    /// Route input to this backend session (0: none).
    SetActiveSession(u64),
    /// Tear down this backend session.
    Disconnect(u64),
    /// Leave the immersive session view.
    ExitViewFullscreen,
    /// Show the connection sidebar.
    ShowSidebar,
    /// Persist the open tabs.
    SavePrefs,
}

/// Tabs, the active one, the next tab id and a close awaiting confirmation.
pub struct TabStrip<T> {
    tabs: Vec<TabSlot<T>>,
    active: usize,
    next_tab_id: u64,
    pending_close: Option<u64>,
}

/// The session that becomes active when a tab with this session is selected.
pub open spec fn session_or_none(session: Option<u64>) -> u64 {
    match session {
        Some(s) => s,
        None => 0,
    }
}

/// Where the active index goes when the tab at `index` is removed from `len` tabs.
pub open spec fn active_after_remove(active: int, index: int, len: int) -> int {
    if index < active {
        active - 1
    } else if active >= len - 1 {
        len - 2
    } else {
        active
    }
}

/// What closing the tab at `index` (an existing tab) does: the tab and its
/// data leave the strip (the blank tab replaces the last one), its session is
/// torn down, the active index follows, and the effects the caller performs.
pub open spec fn spec_closed<T>(
    before: TabStrip<T>,
    after: TabStrip<T>,
    index: int,
    busy: Seq<bool>,
    view_fullscreen: bool,
    blank: T,
    removed: Option<T>,
    effects: Seq<TabEffect>,
) -> bool {
    let n = before.ids().len();
    let disconnect: Seq<TabEffect> = match before.sessions()[index] {
        Some(sid) => seq![TabEffect::Disconnect(sid)],
        None => Seq::empty(),
    };
    &&& removed == Some(before.datas()[index])
    &&& after.pending() is None
    &&& n == 1 ==> {
        &&& after.ids() == seq![before.next_id()]
        &&& after.sessions() == seq![None::<u64>]
        &&& after.datas() == seq![blank]
        &&& after.active() == 0
        &&& after.next_id() == (if before.next_id() == u64::MAX { 0 } else { (before.next_id() + 1) as u64 })
        &&& effects == disconnect + seq![TabEffect::SetActiveSession(0), TabEffect::ShowSidebar]
            + (if view_fullscreen { seq![TabEffect::ExitViewFullscreen] } else { Seq::empty() })
            + seq![TabEffect::SavePrefs]
    }
    &&& n > 1 ==> {
        let a = active_after_remove(before.active(), index, n as int);
        let old_a = if a < index { a } else { a + 1 };
        &&& after.ids() == before.ids().remove(index)
        &&& after.sessions() == before.sessions().remove(index)
        &&& after.datas() == before.datas().remove(index)
        &&& after.active() == a
        &&& after.next_id() == before.next_id()
        &&& effects == disconnect + seq![
            TabEffect::SetActiveSession(session_or_none(after.sessions()[a])),
            TabEffect::SavePrefs,
        ] + (if index == before.active() && view_fullscreen && !busy[old_a] {
            seq![TabEffect::ExitViewFullscreen, TabEffect::ShowSidebar]
        } else {
            Seq::empty()
        }) + seq![TabEffect::SavePrefs]
    }
}

impl<T> TabStrip<T> {
    pub closed spec fn ids(&self) -> Seq<u64> {
        self.tabs@.map_values(|s: TabSlot<T>| s.tab_id)
    }

    pub closed spec fn sessions(&self) -> Seq<Option<u64>> {
        self.tabs@.map_values(|s: TabSlot<T>| s.session)
    }

    pub closed spec fn datas(&self) -> Seq<T> {
        self.tabs@.map_values(|s: TabSlot<T>| s.data)
    }

    pub closed spec fn active(&self) -> int {
        self.active as int
    }

    pub closed spec fn next_id(&self) -> u64 {
        self.next_tab_id
    }

    pub closed spec fn pending(&self) -> Option<u64> {
        self.pending_close
    }

    /// At least one tab, and the active index points at one.
    pub open spec fn wf(&self) -> bool {
        &&& self.ids().len() >= 1
        &&& self.sessions().len() == self.ids().len()
        &&& self.datas().len() == self.ids().len()
        &&& 0 <= self.active() < self.ids().len()
    }

    /// Opens the saved tabs with ids 1, 2, … and the saved active index,
    /// clamped to the last tab.
    pub fn from_tabs(datas: Vec<T>, active_tab: usize) -> (r: Self)
        requires
            datas.len() >= 1,
            datas.len() < u64::MAX,
        ensures
            r.wf(),
            r.datas() == datas@,
            r.ids() == Seq::new(datas.len() as nat, |i: int| (i + 1) as u64),
            r.sessions() == Seq::new(datas.len() as nat, |i: int| None::<u64>),
            r.active() == if active_tab < datas.len() { active_tab as int } else { datas.len() - 1 },
            r.next_id() == datas.len() + 1,
            r.pending() is None,
    {
        let ghost input = datas@;
        let n = datas.len();
        let mut datas = datas;
        let mut tabs: Vec<TabSlot<T>> = Vec::new();
        let mut next_id: u64 = 1;
        let mut rest: Vec<T> = Vec::new();
        // Take the items front to back.
        while datas.len() > 0
            invariant
                tabs.len() + datas.len() == n,
                n == input.len(),
                n < u64::MAX,
                next_id == tabs.len() + 1,
                datas@ =~= input.subrange(tabs.len() as int, n as int),
                forall|i: int| 0 <= i < tabs.len() ==> (#[trigger] tabs@[i]).data == input[i]
                    && tabs@[i].tab_id == (i + 1) as u64 && tabs@[i].session is None,
            decreases datas.len(),
        {
            let d = datas.remove(0);
            tabs.push(TabSlot { tab_id: next_id, session: None, data: d });
            next_id = next_id + 1;
        }
        let active = if active_tab < n { active_tab } else { n - 1 };
        let r = TabStrip { tabs, active, next_tab_id: next_id, pending_close: None };
        assert(r.datas() =~= input);
        assert(r.ids() =~= Seq::new(n as nat, |i: int| (i + 1) as u64));
        assert(r.sessions() =~= Seq::new(n as nat, |i: int| None::<u64>));
        r
    }

    pub fn len(&self) -> (r: usize)
        ensures
            r == self.ids().len(),
    {
        self.tabs.len()
    }

    pub fn active_index(&self) -> (r: usize)
        ensures
            r == self.active(),
    {
        self.active
    }

    pub fn tab_id(&self, index: usize) -> (r: u64)
        requires
            index < self.ids().len(),
        ensures
            r == self.ids()[index as int],
    {
        self.tabs[index].tab_id
    }

    pub fn session(&self, index: usize) -> (r: Option<u64>)
        requires
            index < self.ids().len(),
        ensures
            r == self.sessions()[index as int],
    {
        self.tabs[index].session
    }

    pub fn tab(&self, index: usize) -> (r: &T)
        requires
            index < self.ids().len(),
        ensures
            *r == self.datas()[index as int],
    {
        &self.tabs[index].data
    }

    pub fn pending_close(&self) -> (r: Option<u64>)
        ensures
            r == self.pending(),
    {
        self.pending_close
    }

    /// Drops a close that is awaiting confirmation.
    pub fn cancel_pending_close(&mut self)
        ensures
            final(self).pending() is None,
            final(self).ids() == old(self).ids(),
            final(self).sessions() == old(self).sessions(),
            final(self).datas() == old(self).datas(),
            final(self).active() == old(self).active(),
            final(self).next_id() == old(self).next_id(),
    {
        self.pending_close = None;
    }

    /// Records the backend session of the active tab (or that it has none).
    pub fn set_active_tab_session(&mut self, session: Option<u64>)
        requires
            old(self).wf(),
        ensures
            final(self).wf(),
            final(self).sessions() == old(self).sessions().update(old(self).active(), session),
            final(self).ids() == old(self).ids(),
            final(self).datas() == old(self).datas(),
            final(self).active() == old(self).active(),
            final(self).next_id() == old(self).next_id(),
            final(self).pending() == old(self).pending(),
    {
        let i = self.active;
        let mut slot = self.tabs.remove(i);
        slot.session = session;
        self.tabs.insert(i, slot);
        assert(self.sessions() =~= old(self).sessions().update(old(self).active(), session));
        assert(self.ids() =~= old(self).ids());
        assert(self.datas() =~= old(self).datas());
    }

    /// The data of the active tab, for editing in place.
    pub fn active_tab_mut(&mut self) -> (r: &mut T)
        requires
            old(self).wf(),
        ensures
            *r == old(self).datas()[old(self).active()],
            final(self).wf(),
            final(self).datas() == old(self).datas().update(old(self).active(), *final(r)),
            final(self).ids() == old(self).ids(),
            final(self).sessions() == old(self).sessions(),
            final(self).active() == old(self).active(),
            final(self).next_id() == old(self).next_id(),
            final(self).pending() == old(self).pending(),
    {
        let i = self.active;
        &mut self.tabs[i].data
    }

    /// Replaces the data of the active tab.
    pub fn set_active_tab(&mut self, data: T)
        requires
            old(self).wf(),
        ensures
            final(self).wf(),
            final(self).datas() == old(self).datas().update(old(self).active(), data),
            final(self).ids() == old(self).ids(),
            final(self).sessions() == old(self).sessions(),
            final(self).active() == old(self).active(),
            final(self).next_id() == old(self).next_id(),
            final(self).pending() == old(self).pending(),
    {
        let i = self.active;
        let mut slot = self.tabs.remove(i);
        slot.data = data;
        self.tabs.insert(i, slot);
        assert(self.sessions() =~= old(self).sessions());
        assert(self.ids() =~= old(self).ids());
        assert(self.datas() =~= old(self).datas().update(old(self).active(), data));
    }

    /// Makes the tab at `index` active (nothing happens for an index past the
    /// end): input goes to its session, and the tabs are saved.
    pub fn select(&mut self, index: usize) -> (effects: Vec<TabEffect>)
        requires
            old(self).wf(),
        ensures
            final(self).wf(),
            final(self).ids() == old(self).ids(),
            final(self).sessions() == old(self).sessions(),
            final(self).datas() == old(self).datas(),
            final(self).next_id() == old(self).next_id(),
            final(self).pending() == old(self).pending(),
            index < old(self).ids().len() ==> final(self).active() == index && effects@ == seq![
                TabEffect::SetActiveSession(session_or_none(old(self).sessions()[index as int])),
                TabEffect::SavePrefs,
            ],
            index >= old(self).ids().len() ==> final(self).active() == old(self).active() && effects@.len() == 0,
    {
        if index >= self.tabs.len() {
            return Vec::new();
        }
        self.active = index;
        let sid = match self.tabs[index].session {
            Some(s) => s,
            None => 0,
        };
        vec![TabEffect::SetActiveSession(sid), TabEffect::SavePrefs]
    }

    /// Opens a blank connection form in a new tab and makes it active.
    pub fn open_new(&mut self, data: T) -> (effects: Vec<TabEffect>)
        requires
            old(self).wf(),
            old(self).ids().len() < usize::MAX,
        ensures
            final(self).wf(),
            final(self).ids() == old(self).ids().push(old(self).next_id()),
            final(self).sessions() == old(self).sessions().push(None),
            final(self).datas() == old(self).datas().push(data),
            final(self).active() == old(self).ids().len(),
            final(self).next_id() == (if old(self).next_id() == u64::MAX { 0 } else { (old(self).next_id() + 1) as u64 }),
            final(self).pending() == old(self).pending(),
            effects@ == seq![
                TabEffect::SetActiveSession(0),
                TabEffect::SavePrefs,
                TabEffect::ShowSidebar,
                TabEffect::SavePrefs,
            ],
    {
        let id = self.next_tab_id;
        self.next_tab_id = if self.next_tab_id == u64::MAX { 0 } else { self.next_tab_id + 1 };
        self.tabs.push(TabSlot { tab_id: id, session: None, data });
        assert(self.ids() =~= old(self).ids().push(id));
        assert(self.sessions() =~= old(self).sessions().push(None));
        assert(self.datas() =~= old(self).datas().push(data));
        let last = self.tabs.len() - 1;
        let mut effects = self.select(last);
        effects.push(TabEffect::ShowSidebar);
        effects.push(TabEffect::SavePrefs);
        effects
    }

    /// Asks to close the tab at `index`. A busy tab (connecting or connected)
    /// is only marked for confirmation, leaving the immersive view so that the
    /// confirmation can be seen; any other tab is closed at once.
    pub fn request_close(&mut self, index: usize, busy: &Vec<bool>, view_fullscreen: bool, blank: T) -> (r: (
        Option<T>,
        Vec<TabEffect>,
    ))
        requires
            old(self).wf(),
            busy.len() == old(self).ids().len(),
        ensures
            final(self).wf(),
            index >= old(self).ids().len() ==> r.0 is None && r.1@.len() == 0 && final(self).ids() == old(self).ids()
                && final(self).sessions() == old(self).sessions() && final(self).datas() == old(self).datas()
                && final(self).next_id() == old(self).next_id()
                && final(self).active() == old(self).active() && final(self).pending() == old(self).pending(),
            index < old(self).ids().len() && busy@[index as int] ==> ({
                &&& r.0 is None
                &&& final(self).pending() == Some(old(self).ids()[index as int])
                &&& final(self).ids() == old(self).ids()
                &&& final(self).sessions() == old(self).sessions()
                &&& final(self).datas() == old(self).datas()
                &&& final(self).active() == old(self).active()
                &&& final(self).next_id() == old(self).next_id()
                &&& r.1@ == if view_fullscreen { seq![TabEffect::ExitViewFullscreen] } else { Seq::empty() }
            }),
            index < old(self).ids().len() && !busy@[index as int] ==> spec_closed(
                *old(self),
                *final(self),
                index as int,
                busy@,
                view_fullscreen,
                blank,
                r.0,
                r.1@,
            ),
    {
        if index >= self.tabs.len() {
            return (None, Vec::new());
        }
        if busy[index] {
            self.pending_close = Some(self.tabs[index].tab_id);
            let effects = if view_fullscreen { vec![TabEffect::ExitViewFullscreen] } else { Vec::new() };
            return (None, effects);
        }
        self.close(index, busy, view_fullscreen, blank)
    }

    /// Closes the tab at `index` (nothing happens for an index past the end),
    /// tearing down its session and keeping at least one tab: closing the last
    /// tab opens the blank one. Closing the active tab while in the immersive
    /// view leaves it unless the tab that becomes active is busy.
    pub fn close(&mut self, index: usize, busy: &Vec<bool>, view_fullscreen: bool, blank: T) -> (r: (
        Option<T>,
        Vec<TabEffect>,
    ))
        requires
            old(self).wf(),
            busy.len() == old(self).ids().len(),
        ensures
            final(self).wf(),
            index >= old(self).ids().len() ==> r.0 is None && r.1@.len() == 0 && final(self).ids() == old(self).ids()
                && final(self).sessions() == old(self).sessions() && final(self).datas() == old(self).datas()
                && final(self).next_id() == old(self).next_id()
                && final(self).active() == old(self).active() && final(self).pending() == old(self).pending(),
            index < old(self).ids().len() ==> spec_closed(*old(self), *final(self), index as int, busy@, view_fullscreen, blank, r.0, r.1@),
    {
        if index >= self.tabs.len() {
            return (None, Vec::new());
        }
        self.pending_close = None;
        let was_active = index == self.active;
        let mut effects: Vec<TabEffect> = Vec::new();
        if let Some(sid) = self.tabs[index].session {
            effects.push(TabEffect::Disconnect(sid));
        }
        let ghost disconnect = effects@;
        let ghost old_ids = self.ids();
        let ghost old_sessions = self.sessions();
        let ghost old_datas = self.datas();
        let removed = self.tabs.remove(index);
        assert(self.ids() =~= old_ids.remove(index as int));
        assert(self.sessions() =~= old_sessions.remove(index as int));
        assert(self.datas() =~= old_datas.remove(index as int));
        if self.tabs.len() == 0 {
            let id = self.next_tab_id;
            self.next_tab_id = if self.next_tab_id == u64::MAX { 0 } else { self.next_tab_id + 1 };
            self.tabs.push(TabSlot { tab_id: id, session: None, data: blank });
            self.active = 0;
            effects.push(TabEffect::SetActiveSession(0));
            effects.push(TabEffect::ShowSidebar);
            if view_fullscreen {
                effects.push(TabEffect::ExitViewFullscreen);
            }
            effects.push(TabEffect::SavePrefs);
            assert(self.ids() =~= seq![id]);
            assert(self.sessions() =~= seq![None::<u64>]);
            assert(self.datas() =~= seq![blank]);
            assert(effects@ =~= disconnect + seq![TabEffect::SetActiveSession(0), TabEffect::ShowSidebar]
                + (if view_fullscreen { seq![TabEffect::ExitViewFullscreen] } else { Seq::empty() })
                + seq![TabEffect::SavePrefs]);
            return (Some(removed.data), effects);
        }
        if index < self.active {
            self.active = self.active - 1;
        } else if self.active >= self.tabs.len() {
            self.active = self.tabs.len() - 1;
        }
        let a = self.active;
        let mut sel = self.select(a);
        effects.append(&mut sel);
        let old_a = if a < index { a } else { a + 1 };
        if was_active && view_fullscreen && !busy[old_a] {
            effects.push(TabEffect::ExitViewFullscreen);
            effects.push(TabEffect::ShowSidebar);
        }
        effects.push(TabEffect::SavePrefs);
        assert(effects@ =~= disconnect + seq![
            TabEffect::SetActiveSession(session_or_none(self.sessions()[a as int])),
            TabEffect::SavePrefs,
        ] + (if was_active && view_fullscreen && !busy@[old_a as int] {
            seq![TabEffect::ExitViewFullscreen, TabEffect::ShowSidebar]
        } else {
            Seq::empty()
        }) + seq![TabEffect::SavePrefs]);
        (Some(removed.data), effects)
    }
}

/// Closing a tab other than the active one keeps the same tab active.
pub proof fn lemma_close_other_keeps_active_tab(active: int, index: int, len: int)
    requires
        len > 1,
        0 <= active < len,
        0 <= index < len,
        index != active,
    ensures
        ({
            let a = active_after_remove(active, index, len);
            &&& 0 <= a < len - 1
            &&& (if a < index { a } else { a + 1 }) == active
        }),
{
}

} // verus!
