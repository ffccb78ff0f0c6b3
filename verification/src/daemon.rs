//! The daemon: its files, its configuration, and what the events of the local
//! server ask of it.

use crate::env::Env;
use crate::json::Json;
use crate::paths::{join_path, joined};
use crate::state::HostState;
use crate::sync::Event;
use crate::text::{
    decimal, join, join_texts, push_decimal, push_signed, same_text, signed_decimal, texts,
};
use crate::util::opt_text;
use vstd::prelude::*;

verus! {

// ---------------------------------------------------------------------------
// files

/// The pidfile of the daemon.
pub fn pid_path(env: &Env) -> (path: String)
    ensures
        path@ == joined(env.state_dir@, "daemon.pid"@),
{
    join_path(env.state_dir.as_str(), "daemon.pid")
}

/// The pause marker. It blocks the autostart until an explicit start clears it;
/// a crash leaves none.
pub fn pause_path(env: &Env) -> (path: String)
    ensures
        path@ == joined(env.state_dir@, "daemon.paused"@),
{
    join_path(env.state_dir.as_str(), "daemon.paused")
}

/// The lock that two racing starts take one after the other.
pub fn lock_path(env: &Env) -> (path: String)
    ensures
        path@ == joined(env.state_dir@, "daemon.lock"@),
{
    join_path(env.state_dir.as_str(), "daemon.lock")
}

/// The daemon that runs: the process that the pidfile names, if it is alive.
pub fn running_pid(named: Option<i32>, alive: bool) -> (running: Option<i32>)
    ensures
        running == if alive {
            named
        } else {
            None
        },
{
    if alive {
        named
    } else {
        None
    }
}

// ---------------------------------------------------------------------------
// configuration

/// A host, as the configuration names it.
#[derive(Debug, Clone)]
pub struct HostConfig {
    pub name: String,
    pub target: String,
    pub prefix: String,
}

/// The configuration of the daemon.
#[derive(Debug, Clone)]
pub struct Config {
    pub hosts: Vec<HostConfig>,
    /// the file that was read
    pub source: Option<String>,
    /// the files that were found and not read
    pub shadowed: Vec<String>,
    pub warnings: Vec<String>,
    pub autostart: bool,
    pub poll_seconds: u64,
    pub close_remote_on_local_close: bool,
    pub viewer_labels: bool,
}

/// How often all hosts are poked: not more than every five seconds.
pub fn poll_interval(config: &Config) -> (seconds: u64)
    ensures
        seconds == if config.poll_seconds > 5 {
            config.poll_seconds
        } else {
            5
        },
{
    if config.poll_seconds > 5 {
        config.poll_seconds
    } else {
        5
    }
}

/// Does the focus hook start the daemon? Not if it runs, not while it is
/// paused, and only where a configuration can be read and asks for it.
pub fn cmd_ensure(running: Option<i32>, paused: bool, config: Option<&Config>) -> (start: bool)
    ensures
        start == (running is None && !paused && (config matches Some(c) && c.autostart)),
{
    if running.is_some() || paused {
        return false;
    }
    match config {
        Some(c) => c.autostart,
        None => false,
    }
}

// ---------------------------------------------------------------------------
// what is printed and logged

/// The names of the hosts.
pub open spec fn host_names(hosts: Seq<HostConfig>) -> Seq<Seq<char>> {
    hosts.map_values(|h: HostConfig| h.name@)
}

/// The warnings that a configuration gives rise to: each file that is ignored,
/// and each that the configuration itself holds.
pub open spec fn config_warnings(config: Config) -> Seq<Seq<char>> {
    texts(config.shadowed@).map_values(
        |path: Seq<char>| "warning: ignoring shadowed config at "@ + path,
    ) + texts(config.warnings@).map_values(|w: Seq<char>| "warning: "@ + w)
}

/// Appends the warnings of a configuration to some lines.
pub fn push_warnings(lines: &mut Vec<String>, config: &Config)
    ensures
        texts(final(lines)@) == texts(old(lines)@) + config_warnings(*config),
{
    let ghost first = texts(lines@);
    let ghost shadowed = texts(config.shadowed@).map_values(
        |path: Seq<char>| "warning: ignoring shadowed config at "@ + path,
    );
    let ghost warned = texts(config.warnings@).map_values(|w: Seq<char>| "warning: "@ + w);
    let mut i: usize = 0;
    assert(first + shadowed.take(0) =~= first);
    while i < config.shadowed.len()
        invariant
            i <= config.shadowed@.len(),
            shadowed == texts(config.shadowed@).map_values(
                |path: Seq<char>| "warning: ignoring shadowed config at "@ + path,
            ),
            texts(lines@) == first + shadowed.take(i as int),
        decreases config.shadowed@.len() - i,
    {
        let ghost before = lines@;
        let mut line = "warning: ignoring shadowed config at ".to_owned();
        line.append(config.shadowed[i].as_str());
        lines.push(line);
        proof {
            assert(texts(config.shadowed@)[i as int] == config.shadowed@[i as int]@);
            assert(shadowed[i as int] == line@);
            assert(texts(lines@) =~= texts(before).push(line@));
            assert(shadowed.take(i + 1) =~= shadowed.take(i as int).push(line@));
        }
        i += 1;
    }
    assert(shadowed.take(i as int) =~= shadowed);
    let mut j: usize = 0;
    assert(first + shadowed + warned.take(0) =~= first + shadowed);
    while j < config.warnings.len()
        invariant
            j <= config.warnings@.len(),
            warned == texts(config.warnings@).map_values(|w: Seq<char>| "warning: "@ + w),
            texts(lines@) == first + shadowed + warned.take(j as int),
        decreases config.warnings@.len() - j,
    {
        let ghost before = lines@;
        let mut line = "warning: ".to_owned();
        line.append(config.warnings[j].as_str());
        lines.push(line);
        proof {
            assert(texts(config.warnings@)[j as int] == config.warnings@[j as int]@);
            assert(warned[j as int] == line@);
            assert(texts(lines@) =~= texts(before).push(line@));
            assert(warned.take(j + 1) =~= warned.take(j as int).push(line@));
        }
        j += 1;
    }
    assert(warned.take(j as int) =~= warned);
    assert(first + shadowed + warned =~= first + (shadowed + warned));
}

/// The first line that a daemon logs.
pub open spec fn start_banner(pid: nat, config: Config) -> Seq<char> {
    "daemon starting (pid "@ + decimal(pid) + ", hosts: "@ + join(
        host_names(config.hosts@),
        ", "@,
    ) + ", config: "@ + (match config.source {
        Some(path) => path@,
        None => "?"@,
    }) + ")"@
}

/// What a daemon logs when it starts.
pub fn start_messages(pid: u32, config: &Config) -> (lines: Vec<String>)
    ensures
        texts(lines@) == seq![start_banner(pid as nat, *config)] + config_warnings(*config),
{
    let mut names: Vec<String> = Vec::new();
    let ghost all = host_names(config.hosts@);
    let mut i: usize = 0;
    assert(texts(names@) =~= all.take(0));
    while i < config.hosts.len()
        invariant
            i <= config.hosts@.len(),
            all == host_names(config.hosts@),
            texts(names@) == all.take(i as int),
        decreases config.hosts@.len() - i,
    {
        let ghost before = names@;
        names.push(config.hosts[i].name.clone());
        proof {
            assert(texts(names@) =~= texts(before).push(config.hosts@[i as int].name@));
            assert(all.take(i + 1) =~= all.take(i as int).push(config.hosts@[i as int].name@));
        }
        i += 1;
    }
    assert(all.take(i as int) =~= all);
    let mut banner = "daemon starting (pid ".to_owned();
    push_decimal(&mut banner, pid as u64);
    banner.append(", hosts: ");
    banner.append(join_texts(names.as_slice(), ", ").as_str());
    banner.append(", config: ");
    match &config.source {
        Some(path) => banner.append(path.as_str()),
        None => banner.append("?"),
    }
    banner.append(")");
    let mut lines: Vec<String> = Vec::new();
    lines.push(banner);
    assert(texts(lines@) =~= seq![start_banner(pid as nat, *config)]);
    push_warnings(&mut lines, config);
    lines
}

/// What a start says where a daemon runs already; else there is one to spawn.
pub fn cmd_start(running: Option<i32>) -> (msg: Option<String>)
    ensures
        opt_text(msg) == match running {
            Some(_) => Some("mirror daemon already running"@),
            None => None::<Seq<char>>,
        },
{
    match running {
        Some(_) => Some("mirror daemon already running".to_owned()),
        None => None,
    }
}

/// What a start says once it has spawned a daemon.
pub fn started_message(pid: u32) -> (msg: String)
    ensures
        msg@ == "mirror daemon started (pid "@ + decimal(pid as nat) + ")"@,
{
    let mut msg = "mirror daemon started (pid ".to_owned();
    push_decimal(&mut msg, pid as u64);
    msg.append(")");
    msg
}

/// What a pause says. The daemon that runs is the one to stop.
pub fn cmd_pause(running: Option<i32>) -> (msg: String)
    ensures
        msg@ == match running {
            Some(pid) => "paused mirror daemon (pid "@ + signed_decimal(pid as int)
                + "); mirrors stay, resume with start"@,
            None => "mirror daemon already stopped; paused (won't autostart until you run start)"@,
        },
{
    match running {
        Some(pid) => {
            let mut msg = "paused mirror daemon (pid ".to_owned();
            push_signed(&mut msg, pid);
            msg.append("); mirrors stay, resume with start");
            msg
        },
        None => "mirror daemon already stopped; paused (won't autostart until you run start)".to_owned(),
    }
}

// ---------------------------------------------------------------------------
// the main loop

/// What wakes the main loop of the daemon.
#[derive(Debug, Clone, Copy, PartialEq, Eq, Structural)]
pub enum Wake {
    Poll,
    /// a restore asks for a pass: the daemon alone writes
    SyncSignal,
    Terminate,
    Interrupt,
}

/// What the daemon does then.
#[derive(Debug, Clone, Copy, PartialEq, Eq, Structural)]
pub enum Reaction {
    PokeAll,
    LogAndPokeAll,
    Stop,
}

/// What the daemon does when it wakes: it pokes every host, or stops.
pub fn on_wake(wake: Wake) -> (reaction: Reaction)
    ensures
        reaction == match wake {
            Wake::Poll => Reaction::PokeAll,
            Wake::SyncSignal => Reaction::LogAndPokeAll,
            Wake::Terminate => Reaction::Stop,
            Wake::Interrupt => Reaction::Stop,
        },
{
    match wake {
        Wake::Poll => Reaction::PokeAll,
        Wake::SyncSignal => Reaction::LogAndPokeAll,
        Wake::Terminate => Reaction::Stop,
        Wake::Interrupt => Reaction::Stop,
    }
}

// ---------------------------------------------------------------------------
// local events

/// Is this the first state that maps a local id?
pub open spec fn is_owner(states: Seq<HostState>, local_id: Seq<char>, i: int) -> bool {
    &&& 0 <= i < states.len()
    &&& states[i].maps(local_id)
    &&& forall|j: int| 0 <= j < i ==> !(#[trigger] states[j]).maps(local_id)
}

/// Which host mirrors this local id? None for a pane of the user's own.
pub fn resolve_owner(states: &[HostState], local_id: &str) -> (owner: Option<usize>)
    ensures
        match owner {
            Some(i) => is_owner(states@, local_id@, i as int),
            None => forall|j: int| 0 <= j < states@.len() ==> !(#[trigger] states@[j]).maps(local_id@),
        },
{
    let mut i: usize = 0;
    while i < states.len()
        invariant
            i <= states@.len(),
            forall|j: int| 0 <= j < i ==> !(#[trigger] states@[j]).maps(local_id@),
        decreases states@.len() - i,
    {
        if states[i].maps_local(local_id) {
            return Some(i);
        }
        i += 1;
    }
    None
}

/// A local id has at most one owner.
pub proof fn law_an_id_has_one_owner(states: Seq<HostState>, local_id: Seq<char>, i: int, j: int)
    requires
        is_owner(states, local_id, i),
        is_owner(states, local_id, j),
    ensures
        i == j,
{
}

/// What an event of the local server tells: the id that the user closed, and
/// the id whose owner has something to do.
pub struct LocalIntent {
    pub closed: Option<String>,
    pub touched: Option<String>,
}

/// The id that the user closed: a close event is the authority on that, the
/// absence from a snapshot is not.
pub open spec fn closed_by_event(event: Seq<char>, data: Json) -> Option<Seq<char>> {
    if event == "workspace_closed"@ {
        data.member_text("workspace_id"@)
    } else if event == "pane_closed"@ {
        data.member_text("pane_id"@)
    } else {
        None
    }
}

/// The id whose owner is poked: what was closed, and a tab that was renamed.
pub open spec fn touched_by_event(event: Seq<char>, data: Json) -> Option<Seq<char>> {
    if event == "tab_renamed"@ {
        data.member_text("tab_id"@)
    } else {
        closed_by_event(event, data)
    }
}

/// What an event of the local server asks for. Only the owner of the id that it
/// names is concerned, not every host.
pub fn local_intent(e: &Event) -> (intent: LocalIntent)
    ensures
        opt_text(intent.closed) == closed_by_event(e.event@, e.data),
        opt_text(intent.touched) == touched_by_event(e.event@, e.data),
{
    proof {
        reveal_strlit("workspace_closed");
        reveal_strlit("pane_closed");
        reveal_strlit("tab_renamed");
        assert("tab_renamed"@.len() != "workspace_closed"@.len());
        assert("tab_renamed"@[0] != "pane_closed"@[0]);
    }
    if same_text(e.event.as_str(), "tab_renamed") {
        return LocalIntent { closed: None, touched: e.data.get_str("tab_id") };
    }
    let closed = if same_text(e.event.as_str(), "workspace_closed") {
        e.data.get_str("workspace_id")
    } else if same_text(e.event.as_str(), "pane_closed") {
        e.data.get_str("pane_id")
    } else {
        None
    };
    let touched = closed.clone();
    LocalIntent { closed, touched }
}

} // verus!
