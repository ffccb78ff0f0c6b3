use herdr_mirror::connection::{rejection_message, Connection};
use herdr_mirror::idmap::IdMap;
use herdr_mirror::json::Json;
use herdr_mirror::state::{HostState, PaneEntry};
use herdr_mirror::sync::{flush_status, Action, Event, SyncLoop};

fn event(name: &str, members: &[(&str, &str)]) -> Option<Event> {
    let members = members.iter().map(|(k, v)| (k.to_string(), Json::Text(v.to_string()))).collect();
    Some(Event { event: name.to_string(), data: Json::Object(members) })
}

fn status(pane: &str, agent: &str) -> Option<Event> {
    event("pane_agent_status_changed", &[("pane_id", pane), ("agent", agent)])
}

fn pane(local_id: &str, closed: bool) -> PaneEntry {
    PaneEntry { local_id: local_id.to_string(), tombstone: closed.then_some(true), seq: 0, reported: None }
}

fn agents(list: &[(String, Json)]) -> Vec<(&str, &str)> {
    list.iter().map(|(id, v)| (id.as_str(), v.get("agent").unwrap().as_str().unwrap())).collect()
}

#[test]
fn events_set_their_timers() {
    let mut s = SyncLoop::new();
    assert_eq!(s.deadline(), None);
    assert!(s.on_event(event("tab_created", &[]), 1000).is_ok());
    assert_eq!(s.deadline(), Some(1500));
    assert!(s.on_event(event("pane_closed", &[("pane_id", "p")]), 1100).is_ok());
    assert_eq!(s.deadline(), Some(1250));
    assert!(s.on_event(status("p", "x"), 1101).is_ok());
    assert_eq!((s.converge_at, s.closes_at, s.status_at), (Some(1500), Some(1250), Some(1251)));
}

/// A burst does not put its answer off.
#[test]
fn a_set_timer_is_not_put_off() {
    let mut s = SyncLoop::new();
    for now in [1000, 1100, 1149] {
        assert!(s.on_event(status("p", "x"), now).is_ok());
        assert!(s.on_event(event("tab_created", &[]), now).is_ok());
    }
    assert_eq!((s.status_at, s.converge_at), (Some(1150), Some(1500)));
    s.on_poke(1149);
    assert_eq!(s.converge_at, Some(1500));
    let mut s = SyncLoop::new();
    s.on_poke(7);
    assert_eq!(s.converge_at, Some(7));
}

#[test]
fn the_latest_status_of_a_pane_is_kept() {
    let mut s = SyncLoop::new();
    assert!(s.on_event(status("b", "old"), 0).is_ok());
    assert!(s.on_event(status("a", "only"), 10).is_ok());
    assert!(s.on_event(status("b", "new"), 20).is_ok());
    assert!(matches!(s.next(149), Action::Wait(Some(150))));
    match s.next(150) {
        Action::FlushStatuses(map) => {
            assert_eq!(agents(&map.entries), vec![("a", "only"), ("b", "new")]);
        }
        _ => panic!("statuses are due"),
    }
    assert_eq!(s.status_at, None);
    assert!(matches!(s.next(150), Action::Wait(None)));
}

#[test]
fn closes_keep_their_order() {
    let mut s = SyncLoop::new();
    assert!(s.on_event(event("tab_closed", &[("tab_id", "t")]), 0).is_ok());
    assert!(s.on_event(event("workspace_closed", &[("workspace_id", "w")]), 1).is_ok());
    assert!(s.on_event(event("pane_closed", &[("pane_id", "p")]), 2).is_ok());
    match s.next(150) {
        Action::ApplyCloses(ids) => assert_eq!(ids, vec!["t", "w", "p"]),
        _ => panic!("closes are due"),
    }
    // a full pass follows at once
    assert!(matches!(s.next(150), Action::Converge));
    assert!(matches!(s.next(150), Action::Wait(None)));
}

/// What is due at one moment: statuses, then closes, then one full pass.
#[test]
fn due_work_is_done_in_order() {
    let mut s = SyncLoop::new();
    assert!(s.on_event(event("pane_closed", &[("pane_id", "p")]), 0).is_ok());
    assert!(s.on_event(status("q", "x"), 0).is_ok());
    assert!(s.on_event(event("pane_exited", &[("pane_id", "p")]), 0).is_ok());
    assert!(matches!(s.next(600), Action::FlushStatuses(_)));
    s.on_flushed(true, 600);
    assert!(matches!(s.next(600), Action::ApplyCloses(_)));
    assert!(matches!(s.next(600), Action::Converge));
    assert!(matches!(s.next(600), Action::Wait(None)));
}

#[test]
fn an_unknown_pane_asks_for_a_full_pass() {
    let mut s = SyncLoop::new();
    s.on_flushed(false, 5);
    assert_eq!(s.converge_at, None);
    s.on_flushed(true, 5);
    assert_eq!(s.converge_at, Some(5));
}

#[test]
fn an_event_without_its_id_is_dropped() {
    let mut s = SyncLoop::new();
    assert!(s.on_event(event("pane_agent_status_changed", &[]), 0).is_ok());
    assert!(s.on_event(event("pane_closed", &[("tab_id", "t")]), 0).is_ok());
    let odd = Event { event: "pane_closed".to_string(), data: Json::Null };
    assert!(s.on_event(Some(odd), 0).is_ok());
    assert_eq!(s.deadline(), None);
}

#[test]
fn the_end_of_the_stream_is_an_error() {
    let mut s = SyncLoop::new();
    assert_eq!(s.on_event(None, 0).unwrap_err().message, "event stream closed");
}

/// Statuses of live mirrors are pushed, those of closed ones are moot, and an
/// unknown pane asks for a full pass.
#[test]
fn statuses_are_sorted_out() {
    let mut state = HostState::default();
    state.panes.insert("live".to_string(), pane("l1", false));
    state.panes.insert("closed".to_string(), pane("l2", true));
    let pending = |ids: &[&str]| {
        let mut map = IdMap::new();
        for id in ids {
            map.insert(id.to_string(), status(id, "x").unwrap().data);
        }
        map
    };
    let (pushes, unknown) = flush_status(&state, pending(&["live", "closed"]));
    assert_eq!(agents(&pushes), vec![("live", "x")]);
    assert!(!unknown);
    let (pushes, unknown) = flush_status(&state, pending(&["new", "closed"]));
    assert!(pushes.is_empty());
    assert!(unknown);
}

fn kinds(subs: &[Json]) -> usize {
    subs.iter().filter(|v| v.get("pane_id").is_some()).count()
}

/// A connection opens with structure events and a full pass, then subscribes to
/// the live panes, and asks again only when they change.
#[test]
fn a_subscription_settles() {
    assert_eq!((Connection::opening().len(), kinds(&Connection::opening())), (9, 0));
    let mut c = Connection::open(40);
    assert!(matches!(c.sync.next(40), Action::Converge));
    let mut state = HostState::default();
    state.panes.insert("b".to_string(), pane("1", false));
    state.panes.insert("a".to_string(), pane("2", false));
    state.panes.insert("c".to_string(), pane("3", true));
    let subs = c.on_converged(&state).unwrap();
    assert_eq!((subs.len(), kinds(&subs)), (11, 2));
    assert!(c.on_answer(true).is_none());
    assert_eq!(c.key, "a,b");
    assert!(c.on_converged(&state).is_none());
    state.panes.remove("a");
    assert!(c.on_converged(&state).is_some());
}

/// A rejected subscription leaves the structure events, and is tried again.
#[test]
fn a_rejection_degrades_to_the_broadcast() {
    let mut c = Connection::open(0);
    let mut state = HostState::default();
    state.panes.insert("a".to_string(), pane("1", false));
    assert!(c.on_converged(&state).is_some());
    let fallback = c.on_answer(false).unwrap();
    assert_eq!((fallback.len(), kinds(&fallback)), (9, 0));
    assert_eq!(c.key, "<broadcast>");
    assert!(c.on_answer(true).is_none());
    assert!(c.on_converged(&state).is_some());
    assert_eq!(rejection_message("h", "gone"), "[h] pane subscriptions rejected (gone) — broadcast only");
}

/// A host without panes asks for the broadcast once more, under its own key.
#[test]
fn a_host_without_panes_settles_on_the_empty_key() {
    let mut c = Connection::open(0);
    let state = HostState::default();
    assert_eq!(c.on_converged(&state).unwrap().len(), 9);
    assert!(c.on_answer(true).is_none());
    assert_eq!(c.key, "");
    assert!(c.on_converged(&state).is_none());
}
