use herdr_mirror::daemon::resolve_owner;
use herdr_mirror::json::Json;
use herdr_mirror::state::{HostState, PaneEntry, TabEntry};
use herdr_mirror::streamer::is_streamer_argv;
use herdr_mirror::subscription::{local_sub_list, sub_list};
use herdr_mirror::transport::{remember_transport, ApiTransport};

/// One fallback is not evidence: the probe also fails when the remote herdr
/// is restarting or the mux hiccups, and pinning a healthy host to the
/// slower transport for the daemon's life is worse than re-probing once.
#[test]
fn a_single_fallback_is_not_remembered() {
    let mut streak = 0u32;

    // transient: fell back once, then the forward worked again
    assert_eq!(remember_transport(Some(ApiTransport::Exec), &mut streak), None);
    assert_eq!(remember_transport(Some(ApiTransport::Socket), &mut streak), Some(ApiTransport::Socket));
    assert_eq!(streak, 0);

    // genuinely broken: two in a row sticks, and stays stuck
    assert_eq!(remember_transport(Some(ApiTransport::Exec), &mut streak), None);
    assert_eq!(
        remember_transport(Some(ApiTransport::Exec), &mut streak),
        Some(ApiTransport::Exec)
    );
    assert_eq!(
        remember_transport(Some(ApiTransport::Exec), &mut streak),
        Some(ApiTransport::Exec)
    );

    // a later success clears it, so a fixed host returns to the forward
    assert_eq!(remember_transport(Some(ApiTransport::Socket), &mut streak), Some(ApiTransport::Socket));
    assert_eq!(remember_transport(Some(ApiTransport::Exec), &mut streak), None);
}

fn argv(parts: &[&str]) -> Vec<Json> {
    parts.iter().map(|s| Json::Text(s.to_string())).collect()
}

/// Real argv, captured from `pane.process_info` on a live ssh mirror pane.
#[test]
fn recognises_a_live_streamer() {
    let streamer = argv(&[
        "/Users/niko/Documents/coding/herdr-mirror/target/release/herdr-mirror",
        "pane",
        "vps",
        "wC:p1",
        "--remote-bin",
        "~/.local/bin/herdr",
    ]);
    assert!(is_streamer_argv(&streamer));

    // the ssh child sharing the same pane is not itself a streamer
    let ssh_child = argv(&["ssh", "-o", "BatchMode=yes", "vps", "exec ~/.local/bin/herdr ..."]);
    assert!(!is_streamer_argv(&ssh_child));
}

/// A docker pane's wrapper looks the same to this check — the whole point
/// of asking herdr per pane instead of matching transport-specific flags.
#[test]
fn transport_and_flags_are_irrelevant() {
    assert!(is_streamer_argv(&argv(&[
        "/plugins/github/mirror-0015/target/release/herdr-mirror",
        "pane",
        "/Users/n/proj",
        "w1:p1",
        "--container-folder",
        "/Users/n/proj",
    ])));
    // and a pre-v0.1.7 streamer, which carried no identity flag at all
    assert!(is_streamer_argv(&argv(&["/usr/local/bin/herdr-mirror", "pane", "vps", "w1:p1"])));
}

/// A shell left behind by session-restore is what healing must act on.
#[test]
fn plain_shell_is_not_a_streamer() {
    assert!(!is_streamer_argv(&argv(&["-zsh"])));
    assert!(!is_streamer_argv(&argv(&["/bin/bash"])));
    assert!(!is_streamer_argv(&argv(&[])));
}

/// Another subcommand in the pane must not read as a live stream.
#[test]
fn other_subcommands_are_not_streamers() {
    assert!(!is_streamer_argv(&argv(&["/usr/local/bin/herdr-mirror", "status"])));
    assert!(!is_streamer_argv(&argv(&["/usr/local/bin/herdr-mirror"])));
}

fn kinds(subs: &[Json]) -> Vec<String> {
    subs.iter().filter_map(|v| v.get("type").and_then(|t| t.as_str())).map(String::from).collect()
}

/// The mirror's own layout writes must not be able to self-feed: neither
/// the remote nor the local subscription set contains layout.updated.
#[test]
fn no_layout_updated_subscriptions_anywhere() {
    let types = kinds(&sub_list(&[]));
    assert!(!types.iter().any(|t| t == "layout.updated"), "remote subs: {types:?}");
    for t in ["workspace.created", "tab.created", "pane.created", "pane.exited"] {
        assert!(types.iter().any(|x| x == t), "missing {t}");
    }
    // per-pane agent-status is additive on top of the broadcast set
    let with_pane = sub_list(&["w1:p1".into()]);
    assert!(
        with_pane
            .iter()
            .any(|v| v.get("type").and_then(|t| t.as_str()) == Some("pane.agent_status_changed")
                && v.get("pane_id").and_then(|p| p.as_str()) == Some("w1:p1"))
    );
    let local_types = kinds(&local_sub_list());
    assert!(!local_types.iter().any(|t| t == "layout.updated"), "local subs: {local_types:?}");
    assert!(local_types.iter().any(|t| t == "tab.renamed"));
}

/// resolve_owner: a local id mapped in a host state resolves to THAT host;
/// an unmapped id (a plain user pane) resolves to none — so a local event
/// pokes exactly one host, not all of them.
#[test]
fn resolve_owner_finds_the_owning_host() {
    let mut sa = HostState::default();
    sa.panes.insert("ra:p".into(), PaneEntry {
        local_id: "t9:p1".into(),
        tombstone: None,
        seq: 0,
        reported: None,
    });
    sa.tabs.insert("ra:t".into(), TabEntry {
        local_id: "t9".into(),
        last_remote_label: None,
        remote_workspace: Some("ra".into()),
    });
    let states = [sa, HostState::default()];
    assert_eq!(resolve_owner(&states, "t9:p1"), Some(0));
    assert_eq!(resolve_owner(&states, "t9"), Some(0)); // tabs resolve too
    assert_eq!(resolve_owner(&states, "nope"), None); // plain user pane
}
