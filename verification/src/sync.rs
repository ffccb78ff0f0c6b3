//! The sync loop of a connected host.
//!
//! Events, pokes and timers of a host arrive through one loop. Status changes
//! take a fast path, closes are applied as they are told, and everything else
//! asks for a full pass. Each is put off for a moment, so that a burst of
//! events is answered once.

use crate::idmap::IdMap;
use crate::json::Json;
use crate::state::HostState;
use crate::state_laws::law_statuses_of_open_mirrors_are_pushed;
use crate::text::{same_text, texts};
use crate::util::{earliest, err, is_earliest, MirrorError};
use vstd::prelude::*;

verus! {

/// An event of a server.
pub struct Event {
    pub event: String,
    pub data: Json,
}

/// For how many milliseconds statuses and closes are put off.
pub const SHORT_DELAY: u64 = 150;

/// For how many milliseconds a full pass is put off.
pub const LONG_DELAY: u64 = 500;

/// A moment this many milliseconds from now.
pub open spec fn later(now: u64, millis: u64) -> u64 {
    if now + millis <= u64::MAX {
        (now + millis) as u64
    } else {
        u64::MAX
    }
}

/// A timer after it was asked for a moment: one that is set is not put off.
pub open spec fn armed(at: Option<u64>, moment: u64) -> Option<u64> {
    match at {
        Some(t) => Some(t),
        None => Some(moment),
    }
}

/// Has a timer run out?
pub open spec fn due(at: Option<u64>, now: u64) -> bool {
    at matches Some(t) && t <= now
}

/// The sooner of two timers.
pub open spec fn sooner(a: Option<u64>, b: Option<u64>) -> Option<u64> {
    match (a, b) {
        (Some(s), Some(t)) => Some(
            if s <= t {
                s
            } else {
                t
            },
        ),
        (Some(s), None) => Some(s),
        (None, t) => t,
    }
}

/// Where a close event names what was closed.
pub open spec fn closed_member(event: Seq<char>) -> Option<Seq<char>> {
    if event == "workspace_closed"@ {
        Some("workspace_id"@)
    } else if event == "tab_closed"@ {
        Some("tab_id"@)
    } else if event == "pane_closed"@ {
        Some("pane_id"@)
    } else {
        None
    }
}

/// What a host waits for: the timers, the latest status of each pane, and the
/// closed ids in the order in which they were closed.
#[verifier::ext_equal]
pub struct SyncModel {
    pub converge_at: Option<u64>,
    pub status_at: Option<u64>,
    pub closes_at: Option<u64>,
    pub statuses: Map<Seq<char>, Json>,
    pub closes: Seq<Seq<char>>,
}

/// What a host does next.
pub enum ActionModel {
    FlushStatuses(Map<Seq<char>, Json>),
    ApplyCloses(Seq<Seq<char>>),
    Converge,
    Wait(Option<u64>),
}

impl SyncModel {
    /// Nothing is waited for.
    pub open spec fn start() -> SyncModel {
        SyncModel {
            converge_at: None,
            status_at: None,
            closes_at: None,
            statuses: Map::empty(),
            closes: Seq::empty(),
        }
    }

    /// A timer runs just where there is something to do when it ends.
    pub open spec fn wf(self) -> bool {
        &&& self.status_at is Some <==> self.statuses.dom() != Set::<Seq<char>>::empty()
        &&& self.closes_at is Some <==> self.closes.len() > 0
    }

    /// A full pass is asked for.
    pub open spec fn ask(self, moment: u64) -> SyncModel {
        SyncModel { converge_at: armed(self.converge_at, moment), ..self }
    }

    /// After an event.
    pub open spec fn event(self, event: Seq<char>, data: Json, now: u64) -> SyncModel {
        if event == "pane_agent_status_changed"@ {
            match data.member_text("pane_id"@) {
                Some(id) => SyncModel {
                    statuses: self.statuses.insert(id, data),
                    status_at: armed(self.status_at, later(now, SHORT_DELAY)),
                    ..self
                },
                None => self,
            }
        } else {
            match closed_member(event) {
                Some(member) => match data.member_text(member) {
                    Some(id) => SyncModel {
                        closes: self.closes.push(id),
                        closes_at: armed(self.closes_at, later(now, SHORT_DELAY)),
                        ..self
                    },
                    None => self,
                },
                None => self.ask(later(now, LONG_DELAY)),
            }
        }
    }

    /// After a poke.
    pub open spec fn poke(self, now: u64) -> SyncModel {
        self.ask(now)
    }

    /// The first timer that ends.
    pub open spec fn deadline(self) -> Option<u64> {
        sooner(self.converge_at, sooner(self.status_at, self.closes_at))
    }

    /// What is done now: statuses first, then closes, then a full pass.
    pub open spec fn next(self, now: u64) -> ActionModel {
        if due(self.status_at, now) {
            ActionModel::FlushStatuses(self.statuses)
        } else if due(self.closes_at, now) {
            ActionModel::ApplyCloses(self.closes)
        } else if due(self.converge_at, now) {
            ActionModel::Converge
        } else {
            ActionModel::Wait(self.deadline())
        }
    }

    /// What is waited for once that is in hand. Closes are followed by a full
    /// pass.
    pub open spec fn after_next(self, now: u64) -> SyncModel {
        if due(self.status_at, now) {
            SyncModel { status_at: None, statuses: Map::empty(), ..self }
        } else if due(self.closes_at, now) {
            SyncModel { closes_at: None, closes: Seq::empty(), ..self }.ask(now)
        } else if due(self.converge_at, now) {
            SyncModel { converge_at: None, ..self }
        } else {
            self
        }
    }

    /// After statuses were flushed: one of a pane that is not mirrored yet asks
    /// for a full pass.
    pub open spec fn flushed(self, need_converge: bool, now: u64) -> SyncModel {
        if need_converge {
            self.ask(now)
        } else {
            self
        }
    }
}

// ---------------------------------------------------------------------------
// the loop

/// What a connected host waits for.
pub struct SyncLoop {
    pub converge_at: Option<u64>,
    pub status_at: Option<u64>,
    pub closes_at: Option<u64>,
    pub pending_status: IdMap<Json>,
    pub pending_closes: Vec<String>,
}

/// What a connected host does next.
pub enum Action {
    FlushStatuses(IdMap<Json>),
    ApplyCloses(Vec<String>),
    Converge,
    Wait(Option<u64>),
}

impl View for SyncLoop {
    type V = SyncModel;

    open spec fn view(&self) -> SyncModel {
        SyncModel {
            converge_at: self.converge_at,
            status_at: self.status_at,
            closes_at: self.closes_at,
            statuses: self.pending_status@,
            closes: texts(self.pending_closes@),
        }
    }
}

impl View for Action {
    type V = ActionModel;

    open spec fn view(&self) -> ActionModel {
        match self {
            Action::FlushStatuses(statuses) => ActionModel::FlushStatuses(statuses@),
            Action::ApplyCloses(closes) => ActionModel::ApplyCloses(texts(closes@)),
            Action::Converge => ActionModel::Converge,
            Action::Wait(at) => ActionModel::Wait(*at),
        }
    }
}

fn arm(at: &mut Option<u64>, moment: u64)
    ensures
        *final(at) == armed(*old(at), moment),
{
    if at.is_none() {
        *at = Some(moment);
    }
}

fn is_due(at: Option<u64>, now: u64) -> (r: bool)
    ensures
        r == due(at, now),
{
    match at {
        Some(t) => t <= now,
        None => false,
    }
}

fn closed_key(event: &str) -> (key: Option<&'static str>)
    ensures
        match key {
            Some(k) => closed_member(event@) == Some(k@),
            None => closed_member(event@) is None,
        },
{
    if same_text(event, "workspace_closed") {
        Some("workspace_id")
    } else if same_text(event, "tab_closed") {
        Some("tab_id")
    } else if same_text(event, "pane_closed") {
        Some("pane_id")
    } else {
        None
    }
}

impl SyncLoop {
    pub open spec fn wf(self) -> bool {
        self.pending_status.wf()
    }

    pub fn new() -> (s: SyncLoop)
        ensures
            s.wf(),
            s@ == SyncModel::start(),
    {
        let s = SyncLoop {
            converge_at: None,
            status_at: None,
            closes_at: None,
            pending_status: IdMap::new(),
            pending_closes: Vec::new(),
        };
        assert(texts(s.pending_closes@) =~= Seq::empty());
        s
    }

    /// Takes an event of the remote server. A stream that has ended is an
    /// error: the connection is lost.
    pub fn on_event(&mut self, event: Option<Event>, now: u64) -> (r: Result<(), MirrorError>)
        requires
            old(self).wf(),
        ensures
            final(self).wf(),
            match event {
                Some(e) => r is Ok && final(self)@ == old(self)@.event(e.event@, e.data, now),
                None => r matches Err(e) && e.message@ == "event stream closed"@ && *final(self)
                    == *old(self),
            },
    {
        let e = match event {
            Some(e) => e,
            None => return Err(err("event stream closed")),
        };
        if same_text(e.event.as_str(), "pane_agent_status_changed") {
            if let Some(id) = e.data.get_str("pane_id") {
                self.pending_status.insert(id, e.data);
                arm(&mut self.status_at, now.saturating_add(SHORT_DELAY));
            }
        } else {
            match closed_key(e.event.as_str()) {
                Some(key) => {
                    if let Some(id) = e.data.get_str(key) {
                        let ghost closes = self.pending_closes@;
                        self.pending_closes.push(id);
                        assert(texts(self.pending_closes@) =~= texts(closes).push(id@));
                        arm(&mut self.closes_at, now.saturating_add(SHORT_DELAY));
                    }
                },
                None => {
                    arm(&mut self.converge_at, now.saturating_add(LONG_DELAY));
                },
            }
        }
        Ok(())
    }

    /// Takes a poke: a full pass is wanted at once.
    pub fn on_poke(&mut self, now: u64)
        requires
            old(self).wf(),
        ensures
            final(self).wf(),
            final(self)@ == old(self)@.poke(now),
    {
        arm(&mut self.converge_at, now);
    }

    /// When the first timer ends.
    pub fn deadline(&self) -> (at: Option<u64>)
        ensures
            at == self@.deadline(),
            is_earliest(seq![self.converge_at, self.status_at, self.closes_at], at),
    {
        let mut timers: Vec<Option<u64>> = Vec::new();
        timers.push(self.converge_at);
        timers.push(self.status_at);
        timers.push(self.closes_at);
        let at = earliest(timers.as_slice());
        proof {
            let all = timers@;
            assert(all =~= seq![self.converge_at, self.status_at, self.closes_at]);
            assert(all[0] == self.converge_at && all[1] == self.status_at && all[2]
                == self.closes_at);
        }
        at
    }

    /// What to do now. Called again with the same moment it gives, one after
    /// the other, all that was due then.
    pub fn next(&mut self, now: u64) -> (action: Action)
        requires
            old(self).wf(),
        ensures
            final(self).wf(),
            final(self)@ == old(self)@.after_next(now),
            action@ == old(self)@.next(now),
            action matches Action::FlushStatuses(statuses) ==> statuses.wf(),
    {
        if is_due(self.status_at, now) {
            self.status_at = None;
            let mut statuses: IdMap<Json> = IdMap::new();
            std::mem::swap(&mut statuses, &mut self.pending_status);
            Action::FlushStatuses(statuses)
        } else if is_due(self.closes_at, now) {
            self.closes_at = None;
            let mut closes: Vec<String> = Vec::new();
            assert(texts(closes@) =~= Seq::empty());
            std::mem::swap(&mut closes, &mut self.pending_closes);
            arm(&mut self.converge_at, now);
            Action::ApplyCloses(closes)
        } else if is_due(self.converge_at, now) {
            self.converge_at = None;
            Action::Converge
        } else {
            Action::Wait(self.deadline())
        }
    }

    /// Takes what a flush of statuses found out.
    pub fn on_flushed(&mut self, need_converge: bool, now: u64)
        requires
            old(self).wf(),
        ensures
            final(self).wf(),
            final(self)@ == old(self)@.flushed(need_converge, now),
    {
        if need_converge {
            arm(&mut self.converge_at, now);
        }
    }
}

// ---------------------------------------------------------------------------
// statuses

/// Does the status of this pane go to its mirror? That of a pane whose mirror
/// the user closed is moot.
pub open spec fn has_live_mirror(state: HostState, id: Seq<char>) -> bool {
    state.panes@.contains_key(id) && !state.panes@[id].tombstoned()
}

/// The statuses that go to mirrors, in order.
pub open spec fn pushed(state: HostState, statuses: Seq<(String, Json)>) -> Seq<(String, Json)> {
    statuses.filter(|s: (String, Json)| has_live_mirror(state, s.0@))
}

/// Is one of these statuses of a pane that is not mirrored yet?
pub open spec fn some_unknown(state: HostState, statuses: Seq<(String, Json)>) -> bool {
    exists|i: int|
        0 <= i < statuses.len() && !state.panes@.contains_key((#[trigger] statuses[i]).0@)
}

/// Sorts out coalesced statuses: those that go to mirrors, and whether a full
/// pass is needed for a pane that is not mirrored yet.
pub fn flush_status(state: &HostState, pending: IdMap<Json>) -> (plan: (
    Vec<(String, Json)>,
    bool,
))
    requires
        state.wf(),
    ensures
        plan.0@ == pushed(*state, pending.entries@),
        plan.1 == some_unknown(*state, pending.entries@),
        forall|i: int|
            0 <= i < pending.entries@.len() ==> (plan.0@.contains(#[trigger] pending.entries@[i])
                <==> state.panes@.contains_key(pending.entries@[i].0@)
                && state.panes@[pending.entries@[i].0@].tombstone != Some(true)),
{
    let ghost all = pending.entries@;
    let rest: Vec<(String, Json)> = pending.entries;
    let mut pushes: Vec<(String, Json)> = Vec::new();
    let mut need_converge: bool = false;
    assert(all.take(0) =~= Seq::empty());
    proof {
        reveal(Seq::filter);
    }
    for s in it: rest
        invariant
            it.seq() == all,
            state.wf(),
            pushes@ == pushed(*state, all.take(it.index() as int)),
            need_converge == some_unknown(*state, all.take(it.index() as int)),
    {
        let ghost i = it.index() as int;
        proof {
            assert(all.take(i + 1).drop_last() =~= all.take(i));
            assert(all.take(i + 1).last() == s);
            reveal(Seq::filter);
        }
        match state.panes.get(s.0.as_str()) {
            Some(entry) => {
                if !entry.is_tombstoned() {
                    pushes.push(s);
                }
            },
            None => {
                need_converge = true;
            },
        }
    }
    assert(all.take(all.len() as int) =~= all);
    proof {
        assert forall|i: int| 0 <= i < all.len() implies (pushes@.contains(#[trigger] all[i])
            <==> state.panes@.contains_key(all[i].0@) && state.panes@[all[i].0@].tombstone != Some(
            true,
        )) by {
            law_statuses_of_open_mirrors_are_pushed(*state, all, i);
        }
    }
    (pushes, need_converge)
}

} // verus!
