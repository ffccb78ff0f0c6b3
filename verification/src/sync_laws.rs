//! What the sync loop promises.

use crate::json::Json;
use crate::sync::{
    armed, closed_member, due, later, ActionModel, SyncModel, LONG_DELAY, SHORT_DELAY,
};
use vstd::prelude::*;

verus! {

/// A timer runs just where there is something to do when it ends, whatever
/// happens: nothing that was taken in is forgotten, and no timer ends in vain.
pub proof fn law_timers_run_for_what_is_pending(
    m: SyncModel,
    event: Seq<char>,
    data: Json,
    need_converge: bool,
    now: u64,
)
    requires
        m.wf(),
    ensures
        SyncModel::start().wf(),
        m.event(event, data, now).wf(),
        m.poke(now).wf(),
        m.after_next(now).wf(),
        m.flushed(need_converge, now).wf(),
{
    assert(SyncModel::start().statuses.dom() =~= Set::<Seq<char>>::empty());
    assert(m.after_next(now).wf()) by {
        if due(m.status_at, now) {
            assert(m.after_next(now).statuses.dom() =~= Set::<Seq<char>>::empty());
        }
    }
    if event == "pane_agent_status_changed"@ {
        if let Some(id) = data.member_text("pane_id"@) {
            assert(m.statuses.insert(id, data).dom().contains(id));
        }
    }
}

/// A burst does not put its answer off: a timer that is set stays as it is
/// until it ends.
pub proof fn law_a_set_timer_is_not_put_off(m: SyncModel, event: Seq<char>, data: Json, now: u64)
    ensures
        m.status_at is Some ==> m.event(event, data, now).status_at == m.status_at,
        m.closes_at is Some ==> m.event(event, data, now).closes_at == m.closes_at,
        m.converge_at is Some ==> m.event(event, data, now).converge_at == m.converge_at,
        m.converge_at is Some ==> m.poke(now).converge_at == m.converge_at,
        m.converge_at is Some ==> m.flushed(true, now).converge_at == m.converge_at,
        m.poke(now).status_at == m.status_at && m.poke(now).closes_at == m.closes_at,
{
}

/// Of the statuses of a pane the latest is kept; those of other panes stay.
pub proof fn law_the_latest_status_is_kept(
    m: SyncModel,
    first: Json,
    second: Json,
    now: u64,
    then: u64,
)
    requires
        first.member_text("pane_id"@) is Some,
        first.member_text("pane_id"@) == second.member_text("pane_id"@),
    ensures
        ({
            let id = first.member_text("pane_id"@)->0;
            let kind = "pane_agent_status_changed"@;
            let after = m.event(kind, first, now).event(kind, second, then);
            &&& after.statuses == m.statuses.insert(id, second)
            &&& after.status_at == armed(m.status_at, later(now, SHORT_DELAY))
        }),
{
    let id = first.member_text("pane_id"@)->0;
    assert(m.statuses.insert(id, first).insert(id, second) =~= m.statuses.insert(id, second));
}

/// Several events at their moments.
pub open spec fn after_events(m: SyncModel, events: Seq<(Seq<char>, Json, u64)>) -> SyncModel
    decreases events.len(),
{
    if events.len() == 0 {
        m
    } else {
        let e = events.last();
        after_events(m, events.drop_last()).event(e.0, e.1, e.2)
    }
}

/// The id that an event closes.
pub open spec fn closed_id(event: Seq<char>, data: Json) -> Option<Seq<char>> {
    match closed_member(event) {
        Some(member) => data.member_text(member),
        None => None,
    }
}

/// The ids that some events close, in order.
pub open spec fn closed_ids(events: Seq<(Seq<char>, Json, u64)>) -> Seq<Seq<char>>
    decreases events.len(),
{
    if events.len() == 0 {
        Seq::empty()
    } else {
        let before = closed_ids(events.drop_last());
        match closed_id(events.last().0, events.last().1) {
            Some(id) => before.push(id),
            None => before,
        }
    }
}

/// All that is closed is applied, in the order in which it was closed.
pub proof fn law_closes_keep_their_order(m: SyncModel, events: Seq<(Seq<char>, Json, u64)>)
    ensures
        after_events(m, events).closes == m.closes + closed_ids(events),
    decreases events.len(),
{
    if events.len() > 0 {
        let before = events.drop_last();
        law_closes_keep_their_order(m, before);
        let e = events.last();
        reveal_strlit("pane_agent_status_changed");
        reveal_strlit("workspace_closed");
        reveal_strlit("tab_closed");
        reveal_strlit("pane_closed");
        assert("pane_agent_status_changed"@.len() != "workspace_closed"@.len());
        assert("pane_agent_status_changed"@.len() != "tab_closed"@.len());
        assert("pane_agent_status_changed"@.len() != "pane_closed"@.len());
        if let Some(id) = closed_id(e.0, e.1) {
            assert(m.closes + closed_ids(before).push(id) =~= (m.closes + closed_ids(before)).push(
                id,
            ));
        }
    } else {
        assert(m.closes + closed_ids(events) =~= m.closes);
    }
}

/// No timer is set further ahead than the delay of what it is for.
pub open spec fn timely(m: SyncModel, now: u64) -> bool {
    &&& m.status_at matches Some(t) ==> t <= later(now, SHORT_DELAY)
    &&& m.closes_at matches Some(t) ==> t <= later(now, SHORT_DELAY)
    &&& m.converge_at matches Some(t) ==> t <= later(now, LONG_DELAY)
}

/// What is taken in is answered in time: whatever happens, as the clock goes
/// on, no timer is set further ahead than the delay of what it is for.
pub proof fn law_answers_are_timely(
    m: SyncModel,
    event: Seq<char>,
    data: Json,
    need_converge: bool,
    now: u64,
    then: u64,
)
    requires
        timely(m, now),
        now <= then,
    ensures
        timely(SyncModel::start(), now),
        timely(m, then),
        timely(m.event(event, data, then), then),
        timely(m.poke(then), then),
        timely(m.after_next(then), then),
        timely(m.flushed(need_converge, then), then),
        m.event(event, data, then).deadline() matches Some(t) ==> t <= later(then, LONG_DELAY),
{
}

/// What is due at one moment is done then: statuses, then closes, then a full
/// pass, each at most once. A full pass follows closes at once, and a flush
/// that met an unknown pane.
pub proof fn law_due_work_is_done_in_order(m: SyncModel, need_converge: bool, now: u64)
    ensures
        ({
            let a = if due(m.status_at, now) {
                m.after_next(now).flushed(need_converge, now)
            } else {
                m
            };
            let b = if due(m.closes_at, now) {
                a.after_next(now)
            } else {
                a
            };
            let c = if due(b.converge_at, now) {
                b.after_next(now)
            } else {
                b
            };
            &&& due(m.status_at, now) ==> m.next(now) == ActionModel::FlushStatuses(m.statuses)
            &&& due(m.closes_at, now) ==> a.next(now) == ActionModel::ApplyCloses(m.closes)
            &&& due(m.closes_at, now) && m.converge_at is None ==> b.next(now)
                == ActionModel::Converge
            &&& due(m.status_at, now) && need_converge && m.converge_at is None ==> b.next(now)
                == ActionModel::Converge
            &&& due(m.converge_at, now) ==> b.next(now) == ActionModel::Converge
            &&& c.next(now) == ActionModel::Wait(c.deadline())
            &&& c.deadline() matches Some(t) ==> t > now
        }),
{
}

// ---------------------------------------------------------------------------
// step by step

/// A timer after it was asked for so many milliseconds from now: one that is set
/// stays as it is, and none is set past the end of time.
pub open spec fn set_in(at: Option<u64>, now: u64, millis: int) -> Option<u64> {
    match at {
        Some(t) => Some(t),
        None => Some(
            if now + millis <= u64::MAX {
                (now + millis) as u64
            } else {
                u64::MAX
            },
        ),
    }
}

/// A status is kept under the id of its pane and looked at in 150 milliseconds;
/// one that names no pane is dropped. Nothing else changes.
pub proof fn law_a_status_event(m: SyncModel, data: Json, now: u64)
    ensures
        data.member_text("pane_id"@) matches Some(id) ==> m.event(
            "pane_agent_status_changed"@,
            data,
            now,
        ) == (SyncModel {
            statuses: m.statuses.insert(id, data),
            status_at: set_in(m.status_at, now, 150),
            ..m
        }),
        data.member_text("pane_id"@) is None ==> m.event(
            "pane_agent_status_changed"@,
            data,
            now,
        ) == m,
{
}

/// A closed workspace, tab or pane is remembered by its id, behind those that
/// were closed before, and looked at in 150 milliseconds; a close that names
/// nothing is dropped. Nothing else changes.
pub proof fn law_a_close_event(m: SyncModel, event: Seq<char>, name: Seq<char>, data: Json, now: u64)
    requires
        (event == "workspace_closed"@ && name == "workspace_id"@) || (event == "tab_closed"@ && name
            == "tab_id"@) || (event == "pane_closed"@ && name == "pane_id"@),
    ensures
        data.member_text(name) matches Some(id) ==> m.event(event, data, now) == (SyncModel {
            closes: m.closes.push(id),
            closes_at: set_in(m.closes_at, now, 150),
            ..m
        }),
        data.member_text(name) is None ==> m.event(event, data, now) == m,
{
    lemma_kinds();
}

/// Any other event asks for a full pass in 500 milliseconds, whatever it holds.
/// Nothing else changes.
pub proof fn law_any_other_event(m: SyncModel, event: Seq<char>, data: Json, now: u64)
    requires
        event != "pane_agent_status_changed"@,
        event != "workspace_closed"@,
        event != "tab_closed"@,
        event != "pane_closed"@,
    ensures
        m.event(event, data, now) == (SyncModel {
            converge_at: set_in(m.converge_at, now, 500),
            ..m
        }),
{
}

proof fn lemma_kinds()
    ensures
        "pane_agent_status_changed"@ != "workspace_closed"@,
        "pane_agent_status_changed"@ != "tab_closed"@,
        "pane_agent_status_changed"@ != "pane_closed"@,
        "workspace_closed"@ != "tab_closed"@,
        "workspace_closed"@ != "pane_closed"@,
        "tab_closed"@ != "pane_closed"@,
{
    reveal_strlit("pane_agent_status_changed");
    reveal_strlit("workspace_closed");
    reveal_strlit("tab_closed");
    reveal_strlit("pane_closed");
    assert("pane_agent_status_changed"@.len() == 25);
    assert("workspace_closed"@.len() == 16);
    assert("tab_closed"@.len() == 10);
    assert("pane_closed"@.len() == 11);
}

/// A poke, and a flush that met an unknown pane, ask for a full pass at once.
/// Nothing else changes.
pub proof fn law_a_poke_asks_for_a_pass(m: SyncModel, now: u64)
    ensures
        m.poke(now) == (SyncModel { converge_at: set_in(m.converge_at, now, 0), ..m }),
        m.flushed(true, now) == (SyncModel { converge_at: set_in(m.converge_at, now, 0), ..m }),
        m.flushed(false, now) == m,
        SyncModel::start() == (SyncModel {
            converge_at: None,
            status_at: None,
            closes_at: None,
            statuses: Map::empty(),
            closes: Seq::empty(),
        }),
{
}

/// Has this timer ended?
pub open spec fn has_ended(at: Option<u64>, now: u64) -> bool {
    match at {
        Some(t) => t <= now,
        None => false,
    }
}

/// What is done at a moment and what is left then. Statuses that are due go
/// first, all of them; then closes, all of them, which ask for a full pass; then
/// a full pass. While no timer has ended nothing is done, and nothing is lost.
pub proof fn law_what_is_done_at_a_moment(m: SyncModel, now: u64)
    ensures
        has_ended(m.status_at, now) ==> m.next(now) == ActionModel::FlushStatuses(m.statuses)
            && m.after_next(now) == (SyncModel { status_at: None, statuses: Map::empty(), ..m }),
        !has_ended(m.status_at, now) && has_ended(m.closes_at, now) ==> m.next(now)
            == ActionModel::ApplyCloses(m.closes) && m.after_next(now) == (SyncModel {
            closes_at: None,
            closes: Seq::empty(),
            converge_at: set_in(m.converge_at, now, 0),
            ..m
        }),
        !has_ended(m.status_at, now) && !has_ended(m.closes_at, now) && has_ended(
            m.converge_at,
            now,
        ) ==> m.next(now) == ActionModel::Converge && m.after_next(now) == (SyncModel {
            converge_at: None,
            ..m
        }),
        !has_ended(m.status_at, now) && !has_ended(m.closes_at, now) && !has_ended(
            m.converge_at,
            now,
        ) ==> m.next(now) == ActionModel::Wait(m.deadline()) && m.after_next(now) == m,
{
}

/// The loop waits for the timer that ends first: it waits just if one is set,
/// until a moment that is one of theirs, and no longer than for any of them.
pub proof fn law_the_loop_waits_for_the_first_timer(m: SyncModel)
    ensures
        m.deadline() is None <==> m.status_at is None && m.closes_at is None
            && m.converge_at is None,
        m.deadline() is Some ==> m.deadline() == m.status_at || m.deadline() == m.closes_at
            || m.deadline() == m.converge_at,
        m.status_at matches Some(t) ==> m.deadline()->0 <= t,
        m.closes_at matches Some(t) ==> m.deadline()->0 <= t,
        m.converge_at matches Some(t) ==> m.deadline()->0 <= t,
{
}

} // verus!
