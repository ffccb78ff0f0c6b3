use herdr_mirror::command::{exit_code, parse_command, pause_marker, Command};
use herdr_mirror::daemon::{
    cmd_ensure, cmd_pause, cmd_start, local_intent, lock_path, on_wake, pause_path, pid_path,
    poll_interval, running_pid, start_messages, started_message, Config, HostConfig, Reaction, Wake,
};
use herdr_mirror::json::Json;
use herdr_mirror::state::{HostState, PaneEntry, WsEntry};
use herdr_mirror::status::cmd_status;
use herdr_mirror::streamer::{
    clear_authority_requests, dead_panes, has_live_streamer, heal_message, process_info_request,
    Asked,
};
use herdr_mirror::sync::Event;
use herdr_mirror::util::{pidfile_pid, pidfile_text};
use herdr_mirror::env::Env;

fn args(rest: &[&str]) -> Vec<String> {
    let mut all = vec!["herdr-mirror".to_string()];
    all.extend(rest.iter().map(|s| s.to_string()));
    all
}

fn parse(rest: &[&str]) -> Command {
    match parse_command(&args(rest)) {
        Ok(c) => c,
        Err(e) => panic!("{}", e.message),
    }
}

#[test]
fn commands_are_told_by_the_first_argument() {
    assert!(matches!(parse(&[]), Command::Status));
    assert!(matches!(parse(&["status"]), Command::Status));
    assert!(matches!(parse(&["daemon"]), Command::Daemon));
    assert!(matches!(parse(&["run"]), Command::Daemon));
    assert!(matches!(parse(&["start"]), Command::Start));
    assert!(matches!(parse(&["pause"]), Command::Pause));
    assert!(matches!(parse(&["stop"]), Command::Pause));
    assert!(matches!(parse(&["ensure"]), Command::Ensure));
    assert!(matches!(parse(&["once"]), Command::Once));
    assert!(matches!(parse(&["teardown"]), Command::Teardown));
    assert!(matches!(parse(&["remote-workspace"]), Command::RemoteWorkspace));
    assert!(matches!(parse(&["remote-tab"]), Command::RemoteTab));
    assert!(matches!(parse(&["remote-split"]), Command::RemoteSplit(None)));
    assert!(matches!(parse(&["remote-split", "down"]), Command::RemoteSplit(Some(d)) if d == "down"));
    assert!(matches!(parse(&["remote-invoke", "a.b", "c"]), Command::RemoteInvoke(s) if s == "a.b"));
    assert!(matches!(parse(&["pane", "h", "t"]), Command::Pane(a) if a == ["h", "t"]));
    assert!(matches!(parse(&["layout"]), Command::Layout(a) if a.is_empty()));
    assert!(matches!(
        parse(&["restore", "vps", "w1", "x"]),
        Command::Restore { host: Some(h), id: Some(i) } if h == "vps" && i == "w1"
    ));
    assert!(matches!(parse(&["restore"]), Command::Restore { host: None, id: None }));
}

/// A wrong command line exits with two, any other error with one.
#[test]
fn wrong_command_lines_are_told_apart() {
    let unknown = parse_command(&args(&["frobnicate"])).err().unwrap().message;
    assert_eq!(
        unknown,
        "unknown command: frobnicate (daemon|pane|start|pause|ensure|status|once|restore|teardown|remote-workspace|remote-tab|remote-split|remote-invoke|layout)"
    );
    assert_eq!(exit_code(&unknown), 2);
    let usage = parse_command(&args(&["remote-invoke"])).err().unwrap().message;
    assert_eq!(usage, "usage: herdr-mirror remote-invoke <plugin>.<action>");
    assert_eq!(exit_code(&usage), 2);
    assert_eq!(exit_code("cannot lock daemon.lock"), 1);
    assert_eq!(exit_code("no usage"), 1);
}

fn config() -> Config {
    let host = |name: &str, target: &str| HostConfig {
        name: name.to_string(),
        target: target.to_string(),
        prefix: name.to_string(),
    };
    Config {
        hosts: vec![host("work", "me@work"), host("vps", "ssh://vps")],
        source: Some("/c/hosts.toml".to_string()),
        shadowed: vec!["/d/hosts.toml".to_string()],
        warnings: vec!["host x skipped".to_string()],
        autostart: true,
        poll_seconds: 60,
        close_remote_on_local_close: true,
        viewer_labels: false,
    }
}

/// A pause is sticky: only a start lifts it, and while it holds no focus starts
/// the daemon.
#[test]
fn a_pause_is_sticky() {
    let mut paused = false;
    for (rest, want) in [
        (vec!["pause"], true),
        (vec!["ensure"], true),
        (vec!["status"], true),
        (vec!["restore"], true),
        (vec!["start"], false),
        (vec!["daemon"], false),
        (vec!["teardown"], true),
    ] {
        if let Some(marker) = pause_marker(&parse(&rest)) {
            paused = marker;
        }
        assert_eq!(paused, want, "{rest:?}");
        assert_eq!(cmd_ensure(None, paused, Some(&config())), !want);
    }
}

#[test]
fn a_focus_starts_the_daemon_where_it_is_wanted() {
    assert!(cmd_ensure(None, false, Some(&config())));
    assert!(!cmd_ensure(Some(7), false, Some(&config())));
    assert!(!cmd_ensure(None, false, None));
    assert!(!cmd_ensure(None, false, Some(&Config { autostart: false, ..config() })));
}

#[test]
fn starts_and_pauses_say_what_they_did() {
    assert_eq!(cmd_start(Some(7)).as_deref(), Some("mirror daemon already running"));
    assert_eq!(cmd_start(None), None);
    assert_eq!(started_message(42), "mirror daemon started (pid 42)");
    assert_eq!(cmd_pause(Some(42)), "paused mirror daemon (pid 42); mirrors stay, resume with start");
    assert_eq!(
        cmd_pause(None),
        "mirror daemon already stopped; paused (won't autostart until you run start)"
    );
}

/// Of starts that race, each in its turn, one spawns while its daemon lives.
#[test]
fn racing_starts_spawn_at_most_one() {
    let mut pidfile: Option<String> = Some("99".to_string());
    let mut alive: Vec<i32> = vec![];
    let mut spawned = vec![];
    for child in [7u32, 8, 9] {
        let named = pidfile.as_deref().and_then(pidfile_pid);
        let running = running_pid(named, named.is_some_and(|pid| alive.contains(&pid)));
        if cmd_start(running).is_none() {
            alive.push(child as i32);
            pidfile = Some(pidfile_text(child));
            spawned.push(child);
        }
    }
    assert_eq!(spawned, vec![7]);
    assert_eq!(pidfile.as_deref(), Some("7"));
    assert_eq!(running_pid(Some(7), false), None);
    assert_eq!(running_pid(None, false), None);
}

#[test]
fn the_daemon_keeps_its_files_in_the_state_directory() {
    let env = Env::resolve(Some("/h".to_string()), None, Some("/s".to_string()), b"").ok().unwrap();
    assert_eq!(pid_path(&env), "/h/.local/state/herdr-mirror/daemon.pid");
    assert_eq!(pause_path(&env), "/h/.local/state/herdr-mirror/daemon.paused");
    assert_eq!(lock_path(&env), "/h/.local/state/herdr-mirror/daemon.lock");
}

#[test]
fn the_poll_is_not_faster_than_five_seconds() {
    assert_eq!(poll_interval(&config()), 60);
    assert_eq!(poll_interval(&Config { poll_seconds: 0, ..config() }), 5);
    assert_eq!(poll_interval(&Config { poll_seconds: 6, ..config() }), 6);
}

#[test]
fn the_daemon_pokes_its_hosts_or_stops() {
    assert_eq!(on_wake(Wake::Poll), Reaction::PokeAll);
    assert_eq!(on_wake(Wake::SyncSignal), Reaction::LogAndPokeAll);
    assert_eq!(on_wake(Wake::Terminate), Reaction::Stop);
    assert_eq!(on_wake(Wake::Interrupt), Reaction::Stop);
}

#[test]
fn a_daemon_announces_itself() {
    assert_eq!(
        start_messages(9, &config()),
        vec![
            "daemon starting (pid 9, hosts: work, vps, config: /c/hosts.toml)",
            "warning: ignoring shadowed config at /d/hosts.toml",
            "warning: host x skipped",
        ]
    );
    let bare = Config { hosts: vec![], source: None, shadowed: vec![], warnings: vec![], ..config() };
    assert_eq!(start_messages(9, &bare), vec!["daemon starting (pid 9, hosts: , config: ?)"]);
}

fn states() -> Vec<HostState> {
    let mut s = HostState::default();
    for (id, closed) in [("w1", false), ("w2", true)] {
        s.workspaces.insert(id.to_string(), WsEntry {
            local_id: format!("l-{id}"),
            tombstone: closed.then_some(true),
            root_tab_local_id: None,
            last_remote_label: None,
        });
    }
    for (id, closed) in [("p1", false), ("p2", false), ("p3", true)] {
        s.panes.insert(id.to_string(), PaneEntry {
            local_id: format!("l-{id}"),
            tombstone: closed.then_some(true),
            seq: 0,
            reported: None,
        });
    }
    vec![s, HostState::default()]
}

#[test]
fn a_status_is_exact() {
    let log = "1\n2\n3\r\n4\n5\n6\n7\n\n";
    assert_eq!(
        cmd_status(Some(42), true, Some(&config()), &states(), Some(log)),
        vec![
            "daemon: running (pid 42)",
            "config: /c/hosts.toml",
            "warning: ignoring shadowed config at /d/hosts.toml",
            "warning: host x skipped",
            "host work (me@work): 1 mirror workspaces, 2 mirror panes",
            "  closed mirrors (restorable): workspace w2, pane p3",
            "host vps (ssh://vps): 0 mirror workspaces, 0 mirror panes",
            "recent log:",
            "  3",
            "  4",
            "  5",
            "  6",
            "  7",
        ]
    );
}

/// After a restore of everything, nothing is listed as closed.
#[test]
fn a_full_restore_leaves_nothing_closed() {
    let mut states = states();
    assert_eq!(states[0].restore(None), 2);
    let lines = cmd_status(None, false, Some(&config()), &states, None);
    assert!(lines.iter().any(|l| l.starts_with("host work (me@work): 1 mirror")));
    assert!(!lines.iter().any(|l| l.contains("closed mirrors")));
}

#[test]
fn a_status_without_a_configuration_is_one_line() {
    assert_eq!(
        cmd_status(None, true, None, &[], Some("x")),
        vec!["daemon: not running (paused — resume with start)"]
    );
    assert_eq!(cmd_status(None, false, None, &[], None), vec!["daemon: not running"]);
}

#[test]
fn a_short_log_is_shown_whole() {
    let bare = Config { hosts: vec![], source: None, shadowed: vec![], warnings: vec![], ..config() };
    assert_eq!(
        cmd_status(None, false, Some(&bare), &[], Some("a\nb\n")),
        vec!["daemon: not running", "recent log:", "  a", "  b"]
    );
    assert_eq!(
        cmd_status(None, false, Some(&bare), &[], Some(" \n")),
        vec!["daemon: not running", "recent log:"]
    );
    assert_eq!(cmd_status(None, false, Some(&bare), &[], None), vec!["daemon: not running"]);
}

fn object(members: Vec<(&str, Json)>) -> Json {
    Json::Object(members.into_iter().map(|(k, v)| (k.to_string(), v)).collect())
}

fn text(s: &str) -> Json {
    Json::Text(s.to_string())
}

fn answer(processes: Vec<Json>) -> Option<Json> {
    Some(object(vec![(
        "process_info",
        object(vec![("foreground_processes", Json::List(processes))]),
    )]))
}

fn process(argv: &[&str]) -> Json {
    object(vec![("pid", Json::Number("7".to_string())), ("argv", Json::List(argv.iter().map(|s| text(s)).collect()))])
}

#[test]
fn a_streamer_is_found_among_the_processes() {
    let ssh = process(&["ssh", "vps"]);
    let streamer = process(&["/bin/herdr-mirror", "pane", "vps", "w1:p1"]);
    assert_eq!(has_live_streamer(answer(vec![ssh, streamer])), Some(true));
    assert_eq!(has_live_streamer(answer(vec![process(&["-zsh"])])), Some(false));
    assert_eq!(has_live_streamer(answer(vec![Json::Null, object(vec![])])), Some(false));
    assert_eq!(has_live_streamer(answer(vec![])), Some(false));
}

/// What the server did not answer, or answered differently, is not known.
#[test]
fn an_odd_answer_tells_nothing() {
    assert_eq!(has_live_streamer(None), None);
    assert_eq!(has_live_streamer(Some(Json::Null)), None);
    assert_eq!(has_live_streamer(Some(object(vec![("process_info", Json::Bool(true))]))), None);
    let odd = object(vec![("process_info", object(vec![("foreground_processes", text("x"))]))]);
    assert_eq!(has_live_streamer(Some(odd)), None);
}

#[test]
fn only_dead_panes_are_healed() {
    let asked = |id: &str, streaming| Asked {
        remote_id: format!("r-{id}"),
        local_id: format!("l-{id}"),
        streaming,
    };
    let dead = dead_panes(&[asked("a", Some(true)), asked("b", Some(false)), asked("c", None), asked("d", Some(false))]);
    assert_eq!(
        dead,
        vec![("r-b".to_string(), "l-b".to_string()), ("r-d".to_string(), "l-d".to_string())]
    );
    assert_eq!(
        heal_message("vps", dead.len()),
        "[vps] 2 mirror pane(s) mapped but not streaming (server restart?) — re-exec'ing streamers"
    );
}

#[test]
fn requests_name_their_panes() {
    let info = process_info_request("p");
    assert_eq!(info.get("pane_id").and_then(|v| v.as_str()), Some("p"));
    let requests = clear_authority_requests(&states()[0], "mirror:vps");
    let ids: Vec<_> = requests.iter().map(|v| v.get("pane_id").and_then(|p| p.as_str())).collect();
    assert_eq!(ids, vec![Some("l-p1"), Some("l-p2")]);
    assert!(requests.iter().all(|v| v.get("source").and_then(|s| s.as_str()) == Some("mirror:vps")));
}

#[test]
fn local_events_concern_their_own_id() {
    let intent = |name: &str, member: &str| {
        let e = Event { event: name.to_string(), data: object(vec![(member, text("x"))]) };
        let i = local_intent(&e);
        (i.closed, i.touched)
    };
    let x = || Some("x".to_string());
    assert_eq!(intent("workspace_closed", "workspace_id"), (x(), x()));
    assert_eq!(intent("pane_closed", "pane_id"), (x(), x()));
    assert_eq!(intent("tab_renamed", "tab_id"), (None, x()));
    assert_eq!(intent("workspace_created", "workspace_id"), (None, None));
    assert_eq!(intent("pane_closed", "workspace_id"), (None, None));
    assert_eq!(intent("tab_closed", "tab_id"), (None, None));
}

#[test]
fn members_and_items_are_read_by_kind() {
    let v = object(vec![("a", text("1")), ("b", Json::List(vec![text("2")]))]);
    assert_eq!(v.get("a").and_then(|a| a.as_str()), Some("1"));
    assert!(v.get("a").unwrap().as_array().is_none());
    assert_eq!(v.get("b").and_then(|b| b.as_array()).map(|l| l.len()), Some(1));
    assert!(v.get("c").is_none());
    assert!(v.as_str().is_none() && Json::Null.get("a").is_none());
    assert_eq!(v.get_str("a"), Some("1".to_string()));
    assert_eq!(v.get_str("b"), None);
}
