use herdr_mirror::idmap::IdMap;
use herdr_mirror::restore::{cmd_restore, restore_report, HostMap};
use herdr_mirror::state::{
    hidden_path, pane_hint_path, set_hidden, state_path, take_pane_hint, FileOutcome, HostState,
    PaneEntry, WsEntry,
};

fn pane(local_id: &str, tombstone: Option<bool>) -> PaneEntry {
    PaneEntry { local_id: local_id.to_string(), tombstone, seq: 0, reported: None }
}

fn workspace(local_id: &str, tombstone: Option<bool>) -> WsEntry {
    WsEntry {
        local_id: local_id.to_string(),
        tombstone,
        root_tab_local_id: None,
        last_remote_label: None,
    }
}

fn state() -> HostState {
    let mut s = HostState::default();
    s.workspaces.insert("w1".to_string(), workspace("l1", None));
    s.workspaces.insert("w2".to_string(), workspace("l2", Some(true)));
    s.panes.insert("p3".to_string(), pane("l3", Some(true)));
    s.panes.insert("p1".to_string(), pane("l4", Some(false)));
    s.panes.insert("p2".to_string(), pane("l5", Some(true)));
    s
}

fn ids<V>(map: &IdMap<V>) -> Vec<&str> {
    map.entries.iter().map(|e| e.0.as_str()).collect()
}

#[test]
fn only_a_true_tombstone_counts() {
    assert!(pane("x", Some(true)).is_tombstoned());
    assert!(!pane("x", Some(false)).is_tombstoned());
    assert!(!pane("x", None).is_tombstoned());
    assert!(workspace("x", Some(true)).is_tombstoned());
    assert!(!workspace("x", None).is_tombstoned());
}

#[test]
fn an_id_map_is_ordered_and_keeps_each_id_once() {
    let mut m: IdMap<u32> = IdMap::new();
    for (id, v) in [("b", 1), ("a", 2), ("c", 3), ("a", 4)] {
        m.insert(id.to_string(), v);
    }
    assert_eq!(ids(&m), vec!["a", "b", "c"]);
    assert_eq!(m.get("a"), Some(&4));
    assert_eq!(m.get("d"), None);
    assert!(m.remove("b"));
    assert!(!m.remove("b"));
    assert_eq!(ids(&m), vec!["a", "c"]);
}

#[test]
fn live_panes_come_in_order() {
    let list = state().live_panes();
    assert_eq!(list, vec![("p1".to_string(), "l4".to_string())]);
}

#[test]
fn a_state_maps_workspaces_tabs_and_panes() {
    let s = state();
    assert!(s.maps_local("l1") && s.maps_local("l5"));
    assert!(!s.maps_local("p1") && !s.maps_local(""));
}

/// A restore lifts every tombstone and touches nothing else; a second one finds
/// nothing.
#[test]
fn a_restore_lifts_every_tombstone() {
    let mut s = state();
    assert_eq!(s.restore(None), 3);
    assert_eq!(ids(&s.workspaces), vec!["w1"]);
    assert_eq!(ids(&s.panes), vec!["p1"]);
    assert_eq!(s.restore(None), 0);
}

#[test]
fn a_restore_can_be_for_one_id() {
    let mut s = state();
    assert_eq!(s.restore(Some("p2")), 1);
    assert_eq!(ids(&s.panes), vec!["p1", "p3"]);
    assert_eq!(s.restore(Some("p1")), 0);
    assert_eq!(s.restore(Some("nope")), 0);
    assert_eq!(ids(&s.workspaces), vec!["w1", "w2"]);
}

#[test]
fn a_restore_can_be_for_one_host() {
    let hosts = || {
        vec![
            HostMap { name: "a".to_string(), state: state() },
            HostMap { name: "b".to_string(), state: state() },
        ]
    };
    let mut all = hosts();
    assert_eq!(cmd_restore(&mut all, None, None), 6);
    let mut one = hosts();
    assert_eq!(cmd_restore(&mut one, Some("b"), None), 3);
    assert_eq!(ids(&one[0].state.panes), vec!["p1", "p2", "p3"]);
    assert_eq!(ids(&one[1].state.panes), vec!["p1"]);
    let mut both = hosts();
    assert_eq!(cmd_restore(&mut both, Some("a"), Some("w2")), 1);
    assert_eq!(cmd_restore(&mut both, Some("c"), None), 0);
}

#[test]
fn a_restore_is_reported() {
    assert_eq!(
        restore_report(0, true),
        ("nothing to restore (no tombstoned mirrors matched)".to_string(), false)
    );
    assert_eq!(restore_report(2, true), ("restored 2 mirror(s) — daemon syncing now".to_string(), true));
    assert_eq!(
        restore_report(12, false),
        ("restored 12 mirror(s) — they will reappear when the daemon starts".to_string(), false)
    );
}

#[test]
fn files_stand_beside_the_map() {
    assert_eq!(hidden_path("/s", "vps"), "/s/vps.hidden");
    assert_eq!(state_path("/s", "vps"), "/s/vps-map.json");
    assert_eq!(pane_hint_path("/s", "wBT:p2"), "/s/.hint-wBT_p2");
}

#[test]
fn showing_a_host_that_is_shown_is_no_error() {
    assert!(set_hidden(true, FileOutcome::Done));
    assert!(set_hidden(false, FileOutcome::Done));
    assert!(set_hidden(false, FileOutcome::NotFound));
    assert!(!set_hidden(true, FileOutcome::NotFound));
    assert!(!set_hidden(true, FileOutcome::Failed));
    assert!(!set_hidden(false, FileOutcome::Failed));
}

#[test]
fn a_fresh_hint_is_shown_and_a_stale_one_dropped() {
    let shown = |msg: &str, age| take_pane_hint(Some(msg), age).shown;
    assert_eq!(shown("closing the local tab\n", Some(0)), Some("closing the local tab".to_string()));
    assert_eq!(shown("x", Some(29)), Some("x".to_string()));
    assert_eq!(shown("x", Some(30)), None);
    assert_eq!(shown("closing the local tab", Some(120)), None);
    assert_eq!(shown("x", None), None);
    assert_eq!(shown(" \n", Some(1)), None);
}

/// A notice that was read is consumed, stale and blank ones too; one that is
/// not there is not.
#[test]
fn a_hint_that_was_read_is_consumed() {
    for (msg, age) in [("x", Some(1)), ("x", Some(120)), ("x", None), (" ", Some(1))] {
        assert!(take_pane_hint(Some(msg), age).consumed, "{msg:?} {age:?}");
    }
    let none = take_pane_hint(None, None);
    assert!(none.shown.is_none() && !none.consumed);
}

/// A notice goes to one pane, and only once.
#[test]
fn notices_have_files_of_their_own() {
    let mut files: Vec<(String, String)> = Vec::new();
    files.push((pane_hint_path("/s", "wBT:p2"), "closing the local tab".to_string()));
    let mut take = |pane: &str| {
        let path = pane_hint_path("/s", pane);
        let found = files.iter().find(|f| f.0 == path).map(|f| f.1.clone());
        let taken = take_pane_hint(found.as_deref(), Some(0));
        if taken.consumed {
            files.retain(|f| f.0 != path);
        }
        taken.shown
    };
    assert_eq!(take("wBT:p3"), None);
    assert_eq!(take("wBT:p2").as_deref(), Some("closing the local tab"));
    assert_eq!(take("wBT:p2"), None);
}

/// No map file is the marker of a hidden host, whatever the hosts are called.
#[test]
fn a_marker_is_no_map() {
    for host in ["vps", "vps-map.json", "", "a/b", "x.hidden"] {
        for other in ["vps", "vps.hidden", "", "a/b", "x-map.json"] {
            assert_ne!(hidden_path("/s", host), state_path("/s", other));
        }
    }
}

#[test]
fn a_state_can_be_copied_and_printed() {
    let mut s = state();
    let copy = s.clone();
    assert_eq!(s.restore(None), 3);
    assert_eq!(ids(&copy.panes), vec!["p1", "p2", "p3"]);
    assert!(format!("{copy:?}").contains("\"p2\""));
}
