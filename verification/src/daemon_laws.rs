//! What the daemon promises: subscriptions, streamers, owners, retries, reports
//! and the command line.

use crate::command::{command_of, error_code, marker_after, CommandModel};
use crate::connection::ConnectionModel;
use crate::daemon::{
    closed_by_event, config_warnings, host_names, is_owner, start_banner, touched_by_event, Config,
    HostConfig,
};
use crate::json::{first_member, Json};
use crate::state::{live_among, HostState, PaneEntry, WsEntry};
use crate::status::{
    closed_mirrors, closed_names, config_lines, daemon_line, host_lines, hosts_lines, live_count,
    log_lines, recent, source_lines,
};
use crate::streamer::{
    dead_among, foreground_processes, is_streamer, is_streamer_process, live_streamer, some_streamer,
    Asked,
};
use crate::subscription::{
    are_records, broadcast_key, kind_record, live_ids, local_kinds, pane_key, sub_records,
};
use crate::sync::{ActionModel, SyncModel};
use crate::text::{
    decimal, join, lines, signed_decimal, text_ends_with, text_starts_with, texts, trim_end,
};
use crate::text_laws::{are_ids, law_joined_ids_tell_the_ids};
use crate::transport::{after_losses, hint_of, streak_of, ApiTransport, Backoff};
use vstd::prelude::*;

verus! {

// ---------------------------------------------------------------------------
// subscriptions

/// All nine structure events are subscribed to, each pane is subscribed to by
/// its id, and nothing else is.
pub proof fn law_what_is_subscribed_to(pane_ids: Seq<Seq<char>>)
    ensures
        sub_records(pane_ids).len() == 9 + pane_ids.len(),
        sub_records(pane_ids).contains(seq![("type"@, "workspace.created"@)]),
        sub_records(pane_ids).contains(seq![("type"@, "workspace.renamed"@)]),
        sub_records(pane_ids).contains(seq![("type"@, "workspace.closed"@)]),
        sub_records(pane_ids).contains(seq![("type"@, "tab.created"@)]),
        sub_records(pane_ids).contains(seq![("type"@, "tab.renamed"@)]),
        sub_records(pane_ids).contains(seq![("type"@, "tab.closed"@)]),
        sub_records(pane_ids).contains(seq![("type"@, "pane.created"@)]),
        sub_records(pane_ids).contains(seq![("type"@, "pane.closed"@)]),
        sub_records(pane_ids).contains(seq![("type"@, "pane.exited"@)]),
        forall|i: int|
            0 <= i < pane_ids.len() ==> #[trigger] sub_records(pane_ids)[9 + i] == seq![
                ("type"@, "pane.agent_status_changed"@),
                ("pane_id"@, pane_ids[i]),
            ],
{
    let all = sub_records(pane_ids);
    assert(all[0] == seq![("type"@, "workspace.created"@)]);
    assert(all[1] == seq![("type"@, "workspace.renamed"@)]);
    assert(all[2] == seq![("type"@, "workspace.closed"@)]);
    assert(all[3] == seq![("type"@, "tab.created"@)]);
    assert(all[4] == seq![("type"@, "tab.renamed"@)]);
    assert(all[5] == seq![("type"@, "tab.closed"@)]);
    assert(all[6] == seq![("type"@, "pane.created"@)]);
    assert(all[7] == seq![("type"@, "pane.closed"@)]);
    assert(all[8] == seq![("type"@, "pane.exited"@)]);
    assert forall|i: int| 0 <= i < pane_ids.len() implies #[trigger] all[9 + i] == seq![
        ("type"@, "pane.agent_status_changed"@),
        ("pane_id"@, pane_ids[i]),
    ] by {}
}

/// On the local side it is closes, renamed tabs and new workspaces, and nothing
/// else.
pub proof fn law_what_is_subscribed_to_locally()
    ensures
        local_kinds().len() == 4,
        local_kinds().contains("workspace.created"@),
        local_kinds().contains("workspace.closed"@),
        local_kinds().contains("pane.closed"@),
        local_kinds().contains("tab.renamed"@),
        forall|kind: Seq<char>| #[trigger] kind_record(kind) == seq![("type"@, kind)],
{
    let kinds = local_kinds();
    assert(kinds[0] == "workspace.created"@);
    assert(kinds[1] == "workspace.closed"@);
    assert(kinds[2] == "pane.closed"@);
    assert(kinds[3] == "tab.renamed"@);
}

/// States with other live panes have other keys, so that a change of the live
/// panes is always noticed. Ids are not empty and have no commas.
pub proof fn law_other_panes_have_another_key(a: HostState, b: HostState)
    requires
        are_ids(live_ids(a)),
        are_ids(live_ids(b)),
        pane_key(live_ids(a)) == pane_key(live_ids(b)),
    ensures
        live_ids(a) == live_ids(b),
{
    law_joined_ids_tell_the_ids(live_ids(a), live_ids(b));
}

/// The ids to subscribe to are the remote ids of the live panes, in order, and
/// their key is made of them, with a comma between each two.
pub proof fn law_live_panes_are_subscribed_to(state: HostState)
    ensures
        live_ids(state).len() == state.live().len(),
        forall|i: int|
            0 <= i < state.live().len() ==> #[trigger] live_ids(state)[i] == state.live()[i].0,
        pane_key(live_ids(state)) == join(live_ids(state), ","@),
        broadcast_key() == "<broadcast>"@,
{
}

/// A connection begins with a full pass that is due at once, and subscribed to
/// the structure events alone.
pub proof fn law_a_connection_begins_with_a_pass(now: u64)
    ensures
        ({
            let c = ConnectionModel::opened(now);
            &&& c.key == "<broadcast>"@
            &&& c.asked is None
            &&& c.sync.next(now) == ActionModel::Converge
            &&& c.sync.after_next(now) == SyncModel::start()
        }),
{
    let c = ConnectionModel::opened(now);
    assert(c.sync.after_next(now) =~= SyncModel::start());
}

/// After a pass the live panes are asked for just if their key is not the one
/// that is subscribed to; what is subscribed to changes only by an answer. One
/// that accepts leaves what was asked for, one that rejects the structure
/// events; an answer to nothing changes nothing.
pub proof fn law_answers_change_the_subscription(c: ConnectionModel, state: HostState)
    ensures
        c.converged(state).key == c.key,
        c.converged(state).sync == c.sync,
        join(live_ids(state), ","@) == c.key ==> c.converged(state).asked is None,
        join(live_ids(state), ","@) != c.key ==> c.converged(state).asked == Some(
            join(live_ids(state), ","@),
        ),
        c.asked matches Some(key) ==> c.answered(true) == (ConnectionModel { key, asked: None, ..c })
            && c.answered(false) == (ConnectionModel { key: "<broadcast>"@, asked: None, ..c }),
        c.asked is None ==> c.answered(true) == c && c.answered(false) == c,
{
}

/// A request holds just the members that it is made of: each text stands under
/// its name, in order.
pub proof fn law_a_record_holds_its_texts(
    v: Json,
    name: Seq<char>,
    text: Seq<char>,
    name2: Seq<char>,
    text2: Seq<char>,
)
    ensures
        v.is_record(seq![(name, text)]) ==> v.member_text(name) == Some(text) && (
        v matches Json::Object(list) && list@.len() == 1),
        v.is_record(seq![(name, text), (name2, text2)]) && name != name2 ==> v.member_text(name)
            == Some(text) && v.member_text(name2) == Some(text2) && (v matches Json::Object(list)
            && list@.len() == 2),
{
    if let Json::Object(list) = v {
        if v.is_record(seq![(name, text)]) {
            assert(list@[0].0@ == name);
            lemma_first_member(list@, name, 0, 0);
        }
        if v.is_record(seq![(name, text), (name2, text2)]) && name != name2 {
            assert(list@[0].0@ == name);
            assert(list@[1].0@ == name2);
            lemma_first_member(list@, name, 0, 0);
            lemma_first_member(list@, name2, 0, 1);
        }
    }
}

/// A list of requests matches a list of records just if each matches the one in
/// its place.
pub proof fn law_requests_match_one_by_one(
    subs: Seq<Json>,
    records: Seq<Seq<(Seq<char>, Seq<char>)>>,
)
    ensures
        are_records(subs, records) <==> subs.len() == records.len() && forall|i: int|
            0 <= i < subs.len() ==> (#[trigger] subs[i]).is_record(records[i]),
{
}

// ---------------------------------------------------------------------------
// JSON

/// A member of an object is found wherever it stands, if no member before it has
/// its name; a name that no member has is not found.
pub proof fn law_members_are_found_by_name(members: Vec<(String, Json)>, name: Seq<char>, i: int)
    requires
        0 <= i <= members@.len(),
        forall|j: int| 0 <= j < i ==> (#[trigger] members@[j]).0@ != name,
        i < members@.len() ==> members@[i].0@ == name,
    ensures
        Json::Object(members).member(name) == if i < members@.len() {
            Some(members@[i].1)
        } else {
            None
        },
{
    lemma_first_member(members@, name, 0, i);
}

proof fn lemma_first_member(members: Seq<(String, Json)>, name: Seq<char>, from: int, i: int)
    requires
        0 <= from <= i <= members.len(),
        forall|j: int| from <= j < i ==> (#[trigger] members[j]).0@ != name,
        i < members.len() ==> members[i].0@ == name,
    ensures
        first_member(members, name, from) == if i < members.len() {
            Some(members[i].1)
        } else {
            None
        },
    decreases i - from,
{
    if from < i {
        assert(members[from].0@ != name);
        lemma_first_member(members, name, from + 1, i);
    }
}

/// Only strings have a text, only arrays have items, and only objects have
/// members.
pub proof fn law_values_are_read_by_kind(v: Json, s: String, list: Vec<Json>, name: Seq<char>)
    ensures
        Json::Text(s).text() == Some(s@),
        v.text() is Some ==> v is Text,
        Json::List(list).items() == Some(list@),
        v.items() is Some ==> v is List,
        v.member(name) is Some ==> v is Object,
        v.member_text(name) == match v.member(name) {
            Some(Json::Text(t)) => Some(t@),
            _ => None::<Seq<char>>,
        },
{
}

// ---------------------------------------------------------------------------
// streamers

/// A command line is that of a streamer just if its program ends with the name
/// of this one and its next word is the subcommand, whatever follows.
pub proof fn law_a_streamer_is_told_by_two_words(argv: Seq<Json>, more: Seq<Json>)
    ensures
        argv.len() < 2 ==> !is_streamer(argv),
        argv.len() >= 2 ==> (is_streamer(argv) <==> (argv[0] matches Json::Text(exe)
            && text_ends_with(exe@, "herdr-mirror"@)) && (argv[1] matches Json::Text(sub) && sub@
            == "pane"@)),
        argv.len() >= 2 ==> is_streamer(argv + more) == is_streamer(argv),
{
    if argv.len() >= 2 {
        assert((argv + more)[0] == argv[0]);
        assert((argv + more)[1] == argv[1]);
    }
}

/// A process is a streamer just by its command line.
pub proof fn law_a_process_is_told_by_its_command_line(process: Json)
    ensures
        is_streamer_process(process) <==> (process.member("argv"@) matches Some(argv) && (
        argv matches Json::List(words) && is_streamer(words@))),
{
}

/// A pane has a live streamer if any of its processes is one, wherever in the
/// list it stands; and none only if none of them is.
pub proof fn law_any_streamer_keeps_a_pane_alive(answer: Json, list: Seq<Json>)
    requires
        foreground_processes(answer) == Some(list),
    ensures
        forall|i: int|
            0 <= i < list.len() && is_streamer_process(#[trigger] list[i]) ==> live_streamer(
                Some(answer),
            ) == Some(true),
        live_streamer(Some(answer)) == Some(false) ==> forall|i: int|
            0 <= i < list.len() ==> !is_streamer_process(#[trigger] list[i]),
        (forall|i: int| 0 <= i < list.len() ==> !is_streamer_process(#[trigger] list[i]))
            ==> live_streamer(Some(answer)) == Some(false),
{
    assert forall|i: int| 0 <= i < list.len() && is_streamer_process(
        #[trigger] list[i],
    ) implies live_streamer(Some(answer)) == Some(true) by {
        assert(some_streamer(list));
    }
    if live_streamer(Some(answer)) == Some(false) {
        assert(!some_streamer(list));
    }
}

/// Processes are listed in one place of an answer; without a list there nothing
/// is known.
pub proof fn law_where_processes_are_listed(answer: Json, list: Seq<Json>)
    ensures
        foreground_processes(answer) == Some(list) <==> (answer.member("process_info"@) matches Some(
            info,
        ) && (info.member("foreground_processes"@) matches Some(found) && (
        found matches Json::List(items) && items@ == list))),
        foreground_processes(answer) is None ==> live_streamer(Some(answer)) is None,
        live_streamer(None) is None,
{
}

/// Panes are healed in order, and each once: one more pane is healed behind the
/// others just if it is known to run no streamer. One of which nothing is known
/// is not.
pub proof fn law_panes_are_healed_in_order(asked: Seq<Asked>, n: int)
    requires
        0 <= n < asked.len(),
    ensures
        dead_among(asked, 0) == Seq::<(Seq<char>, Seq<char>)>::empty(),
        asked[n].streaming == Some(false) ==> dead_among(asked, n + 1) == dead_among(
            asked,
            n,
        ).push((asked[n].remote_id@, asked[n].local_id@)),
        asked[n].streaming != Some(false) ==> dead_among(asked, n + 1) == dead_among(asked, n),
{
}

// ---------------------------------------------------------------------------
// local events

/// The owner of a local id is the first host that maps it, and there is one just
/// if some host does.
pub proof fn law_the_owner_is_the_first_that_maps(
    states: Seq<HostState>,
    local_id: Seq<char>,
    i: int,
    j: int,
)
    requires
        0 <= j < states.len(),
        states[j].maps(local_id),
    ensures
        is_owner(states, local_id, i) ==> 0 <= i <= j && states[i].maps(local_id),
        (0 <= i <= j && states[i].maps(local_id) && forall|k: int|
            0 <= k < i ==> !(#[trigger] states[k]).maps(local_id)) ==> is_owner(
            states,
            local_id,
            i,
        ),
{
}

/// What the user closes is told by two events, and concerns its owner; a tab
/// that is renamed concerns its owner too, and is not closed. No other event
/// concerns anyone.
pub proof fn law_what_local_events_tell(event: Seq<char>, data: Json)
    ensures
        closed_by_event("workspace_closed"@, data) == data.member_text("workspace_id"@),
        closed_by_event("pane_closed"@, data) == data.member_text("pane_id"@),
        closed_by_event("tab_renamed"@, data) is None,
        touched_by_event("workspace_closed"@, data) == data.member_text("workspace_id"@),
        touched_by_event("pane_closed"@, data) == data.member_text("pane_id"@),
        touched_by_event("tab_renamed"@, data) == data.member_text("tab_id"@),
        event != "workspace_closed"@ && event != "pane_closed"@ ==> closed_by_event(
            event,
            data,
        ) is None,
        event != "workspace_closed"@ && event != "pane_closed"@ && event != "tab_renamed"@
            ==> touched_by_event(event, data) is None,
{
    reveal_strlit("workspace_closed");
    reveal_strlit("pane_closed");
    reveal_strlit("tab_renamed");
    assert("tab_renamed"@.len() != "workspace_closed"@.len());
    assert("pane_closed"@.len() != "workspace_closed"@.len());
    assert("tab_renamed"@[0] != "pane_closed"@[0]);
}

// ---------------------------------------------------------------------------
// transports

/// One fallback alone is not remembered at all: the next connection probes anew.
pub proof fn law_one_fallback_is_not_remembered(history: Seq<Option<ApiTransport>>)
    requires
        history.len() > 0,
        history.last() == Some(ApiTransport::Exec),
        history.len() >= 2 ==> history[history.len() - 2] != Some(ApiTransport::Exec),
    ensures
        hint_of(history) is None,
        streak_of(history) == 1,
{
    if history.len() >= 2 {
        assert(history.drop_last().last() == history[history.len() - 2]);
    }
}

/// A streak counts the fallbacks at the end of a history, and any other
/// connection ends it.
pub proof fn law_a_streak_counts_fallbacks(
    history: Seq<Option<ApiTransport>>,
    last: Option<ApiTransport>,
)
    ensures
        streak_of(Seq::empty()) == 0,
        last == Some(ApiTransport::Exec) ==> streak_of(history.push(last)) == streak_of(history)
            + 1,
        last != Some(ApiTransport::Exec) ==> streak_of(history.push(last)) == 0,
{
    assert(history.push(last).drop_last() =~= history);
}

// ---------------------------------------------------------------------------
// retries

/// How many of some losses were faults.
pub open spec fn faults(losses: Seq<bool>) -> nat
    decreases losses.len(),
{
    if losses.len() == 0 {
        0
    } else {
        faults(losses.drop_last()) + if losses.last() {
            0nat
        } else {
            1nat
        }
    }
}

/// The wait after a fault depends on how many faults there were since the host
/// was connected, and not on the dormant spells between them: five seconds, ten,
/// and then thirty. A dormant host waits five minutes, whatever came before.
pub proof fn law_the_wait_counts_faults(b: Backoff, losses: Seq<bool>)
    requires
        losses.len() < usize::MAX,
    ensures
        ({
            let now = after_losses(b.up(), losses);
            &&& now.rung == faults(losses)
            &&& faults(losses) <= losses.len()
            &&& faults(losses) == 0 ==> now.retry(false).delay == 5
            &&& faults(losses) == 1 ==> now.retry(false).delay == 10
            &&& faults(losses) >= 2 ==> now.retry(false).delay == 30
            &&& now.retry(true).delay == 300
            &&& now.retry(false).logged
            &&& losses.len() > 0 ==> now.retry(true).logged == !losses.last()
            &&& losses.len() == 0 ==> now.retry(true).logged == !b.was_dormant
        }),
    decreases losses.len(),
{
    if losses.len() > 0 {
        law_the_wait_counts_faults(b, losses.drop_last());
    }
}

// ---------------------------------------------------------------------------
// the log and the status

/// The name of each host stands in its place.
pub proof fn law_each_host_is_named(hosts: Seq<HostConfig>, i: int)
    requires
        0 <= i < hosts.len(),
    ensures
        host_names(hosts).len() == hosts.len(),
        host_names(hosts)[i] == hosts[i].name@,
{
}

/// The first line of a daemon names its process, all its hosts and its file.
pub proof fn law_the_banner_names_all(pid: nat, config: Config)
    ensures
        start_banner(pid, config) == "daemon starting (pid "@ + decimal(pid) + ", hosts: "@ + join(
            host_names(config.hosts@),
            ", "@,
        ) + ", config: "@ + (match config.source {
            Some(path) => path@,
            None => "?"@,
        }) + ")"@,
{
}

/// Each file that is ignored and each warning of the configuration is told, in
/// order, and nothing else is.
pub proof fn law_each_warning_is_told(config: Config)
    ensures
        config_warnings(config).len() == config.shadowed@.len() + config.warnings@.len(),
        forall|i: int|
            0 <= i < config.shadowed@.len() ==> #[trigger] config_warnings(config)[i]
                == "warning: ignoring shadowed config at "@ + config.shadowed@[i]@,
        forall|i: int|
            0 <= i < config.warnings@.len() ==> #[trigger] config_warnings(
                config,
            )[config.shadowed@.len() + i] == "warning: "@ + config.warnings@[i]@,
        config.source matches Some(path) ==> source_lines(config) == seq!["config: "@ + path@],
        config.source is None ==> source_lines(config).len() == 0,
{
    assert forall|i: int| 0 <= i < config.shadowed@.len() implies #[trigger] config_warnings(
        config,
    )[i] == "warning: ignoring shadowed config at "@ + config.shadowed@[i]@ by {
        assert(texts(config.shadowed@)[i] == config.shadowed@[i]@);
    }
    assert forall|i: int| 0 <= i < config.warnings@.len() implies #[trigger] config_warnings(
        config,
    )[config.shadowed@.len() + i] == "warning: "@ + config.warnings@[i]@ by {
        assert(texts(config.warnings@)[i] == config.warnings@[i]@);
    }
}

/// The line on the daemon tells whether it runs, as which process, and, where it
/// does not run, whether it is paused.
pub proof fn law_the_daemon_line(pid: i32, paused: bool)
    ensures
        daemon_line(Some(pid), paused) == "daemon: running (pid "@ + signed_decimal(pid as int)
            + ")"@,
        daemon_line(None, true) == "daemon: not running (paused — resume with start)"@,
        daemon_line(None, false) == "daemon: not running"@,
{
}

/// How many panes have no tombstone that is set.
pub open spec fn open_panes(entries: Seq<(String, PaneEntry)>) -> nat
    decreases entries.len(),
{
    if entries.len() == 0 {
        0
    } else {
        open_panes(entries.drop_last()) + if entries.last().1.tombstone == Some(true) {
            0nat
        } else {
            1nat
        }
    }
}

/// How many workspaces have no tombstone that is set.
pub open spec fn open_workspaces(entries: Seq<(String, WsEntry)>) -> nat
    decreases entries.len(),
{
    if entries.len() == 0 {
        0
    } else {
        open_workspaces(entries.drop_last()) + if entries.last().1.tombstone == Some(true) {
            0nat
        } else {
            1nat
        }
    }
}

/// Panes are counted and listed by their tombstones alone: each is either
/// counted as a mirror or listed as closed, with its id.
pub proof fn law_each_pane_is_counted_or_listed(kind: Seq<char>, entries: Seq<(String, PaneEntry)>)
    ensures
        live_count(entries) == open_panes(entries),
        live_count(entries) + closed_names(kind, entries).len() == entries.len(),
        entries.len() > 0 ==> closed_names(kind, entries) == closed_names(
            kind,
            entries.drop_last(),
        ) + (if entries.last().1.tombstone == Some(true) {
            seq![kind + entries.last().0@]
        } else {
            Seq::empty()
        }),
    decreases entries.len(),
{
    reveal(Seq::filter);
    if entries.len() > 0 {
        let before = entries.drop_last();
        let last = entries.last();
        law_each_pane_is_counted_or_listed(kind, before);
        assert(closed_names(kind, entries) =~= closed_names(kind, before) + (
        if last.1.tombstone == Some(true) {
            seq![kind + last.0@]
        } else {
            Seq::empty()
        }));
    }
}

/// Each live pane is listed once: there are as many as have no tombstone that is
/// set.
pub proof fn law_each_live_pane_is_listed_once(state: HostState)
    ensures
        state.live().len() == open_panes(state.panes.entries@),
{
    lemma_live_count(state.panes.entries@, state.panes.entries@.len() as int);
    assert(state.panes.entries@.take(state.panes.entries@.len() as int)
        =~= state.panes.entries@);
}

proof fn lemma_live_count(entries: Seq<(String, PaneEntry)>, n: int)
    requires
        0 <= n <= entries.len(),
    ensures
        live_among(entries, n).len() == open_panes(entries.take(n)),
    decreases n,
{
    if n > 0 {
        lemma_live_count(entries, n - 1);
        assert(entries.take(n).drop_last() =~= entries.take(n - 1));
        assert(entries.take(n).last() == entries[n - 1]);
    }
}

/// Workspaces are counted and listed by their tombstones alone.
pub proof fn law_each_workspace_is_counted_or_listed(
    kind: Seq<char>,
    entries: Seq<(String, WsEntry)>,
)
    ensures
        live_count(entries) == open_workspaces(entries),
        live_count(entries) + closed_names(kind, entries).len() == entries.len(),
        entries.len() > 0 ==> closed_names(kind, entries) == closed_names(
            kind,
            entries.drop_last(),
        ) + (if entries.last().1.tombstone == Some(true) {
            seq![kind + entries.last().0@]
        } else {
            Seq::empty()
        }),
    decreases entries.len(),
{
    reveal(Seq::filter);
    if entries.len() > 0 {
        let before = entries.drop_last();
        let last = entries.last();
        law_each_workspace_is_counted_or_listed(kind, before);
        assert(closed_names(kind, entries) =~= closed_names(kind, before) + (
        if last.1.tombstone == Some(true) {
            seq![kind + last.0@]
        } else {
            Seq::empty()
        }));
    }
}

/// The lines on a host: its name, its target and its counts, and, just where it
/// has closed mirrors, all of these, workspaces before panes.
pub proof fn law_the_lines_on_a_host(host: HostConfig, state: HostState)
    ensures
        host_lines(host, state)[0] == "host "@ + host.name@ + " ("@ + host.target@ + "): "@
            + decimal(open_workspaces(state.workspaces.entries@)) + " mirror workspaces, "@
            + decimal(open_panes(state.panes.entries@)) + " mirror panes"@,
        closed_mirrors(state) == closed_names("workspace "@, state.workspaces.entries@)
            + closed_names("pane "@, state.panes.entries@),
        host_lines(host, state).len() == if open_workspaces(state.workspaces.entries@)
            + open_panes(state.panes.entries@) == state.workspaces.entries@.len()
            + state.panes.entries@.len() {
            1nat
        } else {
            2nat
        },
        host_lines(host, state).len() == 2 ==> host_lines(host, state)[1]
            == "  closed mirrors (restorable): "@ + join(closed_mirrors(state), ", "@),
{
    law_each_workspace_is_counted_or_listed("workspace "@, state.workspaces.entries@);
    law_each_pane_is_counted_or_listed("pane "@, state.panes.entries@);
}

/// The lines on hosts are those on each of them, one host after the other.
pub proof fn law_each_host_has_its_lines(hosts: Seq<HostConfig>, states: Seq<HostState>, n: int)
    requires
        0 <= n < hosts.len(),
    ensures
        hosts_lines(hosts, states, 0).len() == 0,
        hosts_lines(hosts, states, n + 1) == hosts_lines(hosts, states, n) + host_lines(
            hosts[n],
            states[n],
        ),
{
}

/// Of a log the last lines are shown, five or as many as there are, in order.
pub proof fn law_the_last_lines_of_a_log(log: Seq<char>)
    ensures
        ({
            let all = lines(trim_end(log));
            let shown = recent(log);
            &&& shown.len() == if all.len() < 5 {
                all.len()
            } else {
                5
            }
            &&& forall|i: int|
                0 <= i < shown.len() ==> #[trigger] shown[i] == all[all.len() - shown.len() + i]
            &&& log_lines(log).len() == shown.len() + 1
            &&& log_lines(log)[0] == "recent log:"@
            &&& forall|i: int|
                0 <= i < shown.len() ==> #[trigger] log_lines(log)[i + 1] == "  "@ + shown[i]
        }),
{
}

/// A report on a configuration tells its file, its warnings, its hosts and the
/// log, in this order, and the log only if there is one.
pub proof fn law_the_order_of_a_report(config: Config, states: Seq<HostState>, log: &str)
    ensures
        config_lines(config, states, None) == source_lines(config) + config_warnings(config)
            + hosts_lines(config.hosts@, states, config.hosts@.len() as int),
        config_lines(config, states, Some(log)) == config_lines(config, states, None) + log_lines(
            log@,
        ),
{
    let before = source_lines(config) + config_warnings(config) + hosts_lines(
        config.hosts@,
        states,
        config.hosts@.len() as int,
    );
    assert(before + Seq::<Seq<char>>::empty() =~= before);
}

// ---------------------------------------------------------------------------
// the command line

/// A command is told by its exact word, and takes the words after it; any other
/// word is an error that repeats it.
pub proof fn law_commands_take_their_words(args: Seq<Seq<char>>)
    requires
        args.len() >= 2,
    ensures
        args[1] == "restore"@ ==> command_of(args) == Ok::<CommandModel, Seq<char>>(
            CommandModel::Restore {
                host: if args.len() > 2 {
                    Some(args[2])
                } else {
                    None
                },
                id: if args.len() > 3 {
                    Some(args[3])
                } else {
                    None
                },
            },
        ),
        args[1] == "pane"@ ==> command_of(args) == Ok::<CommandModel, Seq<char>>(
            CommandModel::Pane(args.skip(2)),
        ),
        args[1] == "layout"@ ==> command_of(args) == Ok::<CommandModel, Seq<char>>(
            CommandModel::Layout(args.skip(2)),
        ),
        args[1] == "remote-split"@ ==> command_of(args) == Ok::<CommandModel, Seq<char>>(
            CommandModel::RemoteSplit(
                if args.len() > 2 {
                    Some(args[2])
                } else {
                    None
                },
            ),
        ),
        args[1] == "remote-invoke"@ && args.len() > 2 ==> command_of(args) == Ok::<
            CommandModel,
            Seq<char>,
        >(CommandModel::RemoteInvoke(args[2])),
        command_of(args) matches Err(message) ==> error_code(message) == 2,
{
    crate::command::law_a_wrong_command_line_exits_with_two(args);
    lemma_words();
}

/// Commands that take no words are told by their word alone, whatever follows
/// it; without a word it is the status that is asked for.
pub proof fn law_commands_without_words(args: Seq<Seq<char>>)
    ensures
        args.len() < 2 ==> command_of(args) == Ok::<CommandModel, Seq<char>>(CommandModel::Status),
        args.len() >= 2 && (args[1] == "daemon"@ || args[1] == "run"@) ==> command_of(args) == Ok::<
            CommandModel,
            Seq<char>,
        >(CommandModel::Daemon),
        args.len() >= 2 && args[1] == "start"@ ==> command_of(args) == Ok::<
            CommandModel,
            Seq<char>,
        >(CommandModel::Start),
        args.len() >= 2 && (args[1] == "pause"@ || args[1] == "stop"@) ==> command_of(args) == Ok::<
            CommandModel,
            Seq<char>,
        >(CommandModel::Pause),
        args.len() >= 2 && args[1] == "ensure"@ ==> command_of(args) == Ok::<
            CommandModel,
            Seq<char>,
        >(CommandModel::Ensure),
        args.len() >= 2 && args[1] == "status"@ ==> command_of(args) == Ok::<
            CommandModel,
            Seq<char>,
        >(CommandModel::Status),
        args.len() >= 2 && args[1] == "once"@ ==> command_of(args) == Ok::<
            CommandModel,
            Seq<char>,
        >(CommandModel::Once),
        args.len() >= 2 && args[1] == "teardown"@ ==> command_of(args) == Ok::<
            CommandModel,
            Seq<char>,
        >(CommandModel::Teardown),
        args.len() >= 2 && args[1] == "remote-workspace"@ ==> command_of(args) == Ok::<
            CommandModel,
            Seq<char>,
        >(CommandModel::RemoteWorkspace),
        args.len() >= 2 && args[1] == "remote-tab"@ ==> command_of(args) == Ok::<
            CommandModel,
            Seq<char>,
        >(CommandModel::RemoteTab),
        args.len() == 2 && args[1] == "remote-invoke"@ ==> command_of(args) == Err::<
            CommandModel,
            Seq<char>,
        >("usage: herdr-mirror remote-invoke <plugin>.<action>"@),
{
    lemma_words();
    lemma_plain_words();
}

proof fn lemma_plain_words()
    ensures
        "start"@ != "daemon"@ && "start"@ != "run"@,
        "pause"@ != "daemon"@ && "pause"@ != "run"@ && "pause"@ != "start"@,
        "stop"@ != "daemon"@ && "stop"@ != "run"@ && "stop"@ != "start"@,
        "ensure"@ != "daemon"@ && "ensure"@ != "run"@ && "ensure"@ != "start"@ && "ensure"@
            != "pause"@ && "ensure"@ != "stop"@,
        "status"@ != "daemon"@ && "status"@ != "run"@ && "status"@ != "start"@ && "status"@
            != "pause"@ && "status"@ != "stop"@ && "status"@ != "ensure"@,
        "once"@ != "daemon"@ && "once"@ != "run"@ && "once"@ != "start"@ && "once"@ != "pause"@
            && "once"@ != "stop"@ && "once"@ != "ensure"@ && "once"@ != "status"@,
        "teardown"@.len() == 8 && "remote-workspace"@.len() == 16 && "remote-tab"@.len() == 10,
        "daemon"@.len() == 6 && "run"@.len() == 3 && "start"@.len() == 5 && "pause"@.len() == 5
            && "stop"@.len() == 4 && "ensure"@.len() == 6 && "status"@.len() == 6 && "once"@.len()
            == 4 && "restore"@.len() == 7 && "pane"@.len() == 4,
{
    reveal_strlit("daemon");
    reveal_strlit("run");
    reveal_strlit("start");
    reveal_strlit("pause");
    reveal_strlit("stop");
    reveal_strlit("ensure");
    reveal_strlit("status");
    reveal_strlit("once");
    reveal_strlit("restore");
    reveal_strlit("teardown");
    reveal_strlit("pane");
    reveal_strlit("remote-workspace");
    reveal_strlit("remote-tab");
    assert("daemon"@.len() == 6 && "run"@.len() == 3 && "start"@.len() == 5 && "pause"@.len() == 5);
    assert("stop"@.len() == 4 && "ensure"@.len() == 6 && "status"@.len() == 6 && "once"@.len() == 4);
    assert("start"@[0] == 's' && "pause"@[0] == 'p');
    assert("stop"@[0] == 's' && "once"@[0] == 'o');
    assert("daemon"@[0] == 'd' && "ensure"@[0] == 'e' && "status"@[0] == 's');
}

/// An error exits with two just if its message begins as those on a wrong
/// command line do, and with one else.
pub proof fn law_errors_exit_with_one_or_two(message: Seq<char>)
    ensures
        text_starts_with(message, "unknown command"@) ==> error_code(message) == 2,
        text_starts_with(message, "usage"@) ==> error_code(message) == 2,
        !text_starts_with(message, "unknown command"@) && !text_starts_with(message, "usage"@)
            ==> error_code(message) == 1,
{
}

/// A start clears the pause marker, a pause and a teardown set it, and no other
/// command touches it.
pub proof fn law_what_sets_the_pause_marker(command: CommandModel, paused: bool)
    ensures
        !marker_after(CommandModel::Start, paused),
        marker_after(CommandModel::Pause, paused),
        marker_after(CommandModel::Teardown, paused),
        !(command is Start) && !(command is Pause) && !(command is Teardown) ==> marker_after(
            command,
            paused,
        ) == paused,
{
}

/// A word that is no command is an error that repeats the word.
pub proof fn law_other_words_are_no_commands(args: Seq<Seq<char>>)
    requires
        args.len() >= 2,
        args[1] != "daemon"@ && args[1] != "run"@ && args[1] != "start"@ && args[1] != "pause"@
            && args[1] != "stop"@ && args[1] != "ensure"@ && args[1] != "status"@ && args[1]
            != "once"@ && args[1] != "restore"@ && args[1] != "teardown"@ && args[1] != "pane"@
            && args[1] != "remote-workspace"@ && args[1] != "remote-tab"@ && args[1]
            != "remote-split"@ && args[1] != "remote-invoke"@ && args[1] != "layout"@,
    ensures
        command_of(args) matches Err(message) && message == "unknown command: "@ + args[1]
            + " (daemon|pane|start|pause|ensure|status|once|restore|teardown|remote-workspace|remote-tab|remote-split|remote-invoke|layout)"@,
{
}

/// No two of the words that stand for different commands are the same.
proof fn lemma_words()
    ensures
        "restore"@ != "daemon"@ && "restore"@ != "run"@ && "restore"@ != "start"@ && "restore"@
            != "pause"@ && "restore"@ != "stop"@ && "restore"@ != "ensure"@ && "restore"@
            != "status"@ && "restore"@ != "once"@,
        "pane"@ != "daemon"@ && "pane"@ != "run"@ && "pane"@ != "start"@ && "pane"@ != "pause"@
            && "pane"@ != "stop"@ && "pane"@ != "ensure"@ && "pane"@ != "status"@ && "pane"@
            != "once"@ && "pane"@ != "restore"@ && "pane"@ != "teardown"@,
        "layout"@ != "daemon"@ && "layout"@ != "run"@ && "layout"@ != "start"@ && "layout"@
            != "pause"@ && "layout"@ != "stop"@ && "layout"@ != "ensure"@ && "layout"@ != "status"@
            && "layout"@ != "once"@ && "layout"@ != "restore"@ && "layout"@ != "teardown"@
            && "layout"@ != "pane"@ && "layout"@ != "remote-workspace"@ && "layout"@
            != "remote-tab"@ && "layout"@ != "remote-split"@ && "layout"@ != "remote-invoke"@,
        "remote-split"@ != "daemon"@ && "remote-split"@ != "run"@ && "remote-split"@ != "start"@
            && "remote-split"@ != "pause"@ && "remote-split"@ != "stop"@ && "remote-split"@
            != "ensure"@ && "remote-split"@ != "status"@ && "remote-split"@ != "once"@
            && "remote-split"@ != "restore"@ && "remote-split"@ != "teardown"@ && "remote-split"@
            != "pane"@ && "remote-split"@ != "remote-workspace"@ && "remote-split"@
            != "remote-tab"@,
        "remote-invoke"@ != "daemon"@ && "remote-invoke"@ != "run"@ && "remote-invoke"@
            != "start"@ && "remote-invoke"@ != "pause"@ && "remote-invoke"@ != "stop"@
            && "remote-invoke"@ != "ensure"@ && "remote-invoke"@ != "status"@ && "remote-invoke"@
            != "once"@ && "remote-invoke"@ != "restore"@ && "remote-invoke"@ != "teardown"@
            && "remote-invoke"@ != "pane"@ && "remote-invoke"@ != "remote-workspace"@
            && "remote-invoke"@ != "remote-tab"@ && "remote-invoke"@ != "remote-split"@,
{
    reveal_strlit("daemon");
    reveal_strlit("run");
    reveal_strlit("start");
    reveal_strlit("pause");
    reveal_strlit("stop");
    reveal_strlit("ensure");
    reveal_strlit("status");
    reveal_strlit("once");
    reveal_strlit("restore");
    reveal_strlit("teardown");
    reveal_strlit("pane");
    reveal_strlit("remote-workspace");
    reveal_strlit("remote-tab");
    reveal_strlit("remote-split");
    reveal_strlit("remote-invoke");
    reveal_strlit("layout");
    assert("daemon"@.len() == 6);
    assert("run"@.len() == 3);
    assert("start"@.len() == 5);
    assert("pause"@.len() == 5);
    assert("stop"@.len() == 4);
    assert("ensure"@.len() == 6);
    assert("status"@.len() == 6);
    assert("once"@.len() == 4);
    assert("restore"@.len() == 7);
    assert("teardown"@.len() == 8);
    assert("pane"@.len() == 4);
    assert("remote-workspace"@.len() == 16);
    assert("remote-tab"@.len() == 10);
    assert("remote-split"@.len() == 12);
    assert("remote-invoke"@.len() == 13);
    assert("layout"@.len() == 6);
    assert("pane"@[0] == 'p' && "once"@[0] == 'o' && "stop"@[0] == 's');
    assert("layout"@[0] == 'l' && "daemon"@[0] == 'd' && "ensure"@[0] == 'e' && "status"@[0]
        == 's');
}

} // verus!
