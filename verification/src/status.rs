//! What `status` prints.

use crate::daemon::{config_warnings, push_warnings, Config, HostConfig};
use crate::idmap::{lemma_one_place, IdMap};
use crate::state::{is_restored, restorable, Closable, HostState};
use crate::text::{
    chars_of, decimal, join, join_texts, lines, lines_of, push_decimal, push_signed,
    signed_decimal, texts, trim_end, trimmed_len,
};
use vstd::prelude::*;
use vstd::slice::slice_subrange;

verus! {

/// The line on the daemon.
pub open spec fn daemon_line(running: Option<i32>, paused: bool) -> Seq<char> {
    match running {
        Some(pid) => "daemon: running (pid "@ + signed_decimal(pid as int) + ")"@,
        None => if paused {
            "daemon: not running (paused — resume with start)"@
        } else {
            "daemon: not running"@
        },
    }
}

fn daemon_text(running: Option<i32>, paused: bool) -> (line: String)
    ensures
        line@ == daemon_line(running, paused),
{
    match running {
        Some(pid) => {
            let mut line = "daemon: running (pid ".to_owned();
            push_signed(&mut line, pid);
            line.append(")");
            line
        },
        None => if paused {
            "daemon: not running (paused — resume with start)".to_owned()
        } else {
            "daemon: not running".to_owned()
        },
    }
}

// ---------------------------------------------------------------------------
// hosts

/// How many of these entries the user has not closed.
pub open spec fn live_count<V: Closable>(entries: Seq<(String, V)>) -> nat {
    entries.filter(|e: (String, V)| !e.1.closed_by_user()).len()
}

/// The ids of the entries that the user closed, each with its kind before it.
pub open spec fn closed_names<V: Closable>(
    kind: Seq<char>,
    entries: Seq<(String, V)>,
) -> Seq<Seq<char>> {
    entries.filter(|e: (String, V)| e.1.closed_by_user()).map_values(
        |e: (String, V)| kind + e.0@,
    )
}

/// One entry more: how the live and the closed ones grow.
proof fn lemma_one_more<V: Closable>(kind: Seq<char>, entries: Seq<(String, V)>, i: int)
    requires
        0 <= i < entries.len(),
    ensures
        live_count(entries.take(i + 1)) == live_count(entries.take(i)) + if entries[i].1.closed_by_user() {
            0nat
        } else {
            1nat
        },
        closed_names(kind, entries.take(i + 1)) == if entries[i].1.closed_by_user() {
            closed_names(kind, entries.take(i)).push(kind + entries[i].0@)
        } else {
            closed_names(kind, entries.take(i))
        },
{
    reveal(Seq::filter);
    assert(entries.take(i + 1).drop_last() =~= entries.take(i));
    assert(entries.take(i + 1).last() == entries[i]);
    let closed = entries.take(i).filter(|e: (String, V)| e.1.closed_by_user());
    let name = |e: (String, V)| kind + e.0@;
    assert(closed.push(entries[i]).map_values(name) =~= closed.map_values(name).push(
        kind + entries[i].0@,
    ));
}

fn count_live<V: Closable>(map: &IdMap<V>) -> (n: usize)
    ensures
        n == live_count(map.entries@),
{
    let mut n: usize = 0;
    let mut i: usize = 0;
    proof {
        reveal(Seq::filter);
        assert(map.entries@.take(0) =~= Seq::empty());
    }
    while i < map.entries.len()
        invariant
            n <= i <= map.entries@.len(),
            n == live_count(map.entries@.take(i as int)),
        decreases map.entries@.len() - i,
    {
        proof {
            lemma_one_more(Seq::empty(), map.entries@, i as int);
        }
        if !map.entries[i].1.is_closed_by_user() {
            n += 1;
        }
        i += 1;
    }
    assert(map.entries@.take(i as int) =~= map.entries@);
    n
}

fn push_closed<V: Closable>(names: &mut Vec<String>, kind: &str, map: &IdMap<V>)
    ensures
        texts(final(names)@) == texts(old(names)@) + closed_names(kind@, map.entries@),
{
    let ghost first = texts(names@);
    let mut i: usize = 0;
    proof {
        reveal(Seq::filter);
        assert(map.entries@.take(0) =~= Seq::empty());
        assert(closed_names(kind@, map.entries@.take(0)) =~= Seq::empty());
        assert(first + closed_names(kind@, map.entries@.take(0)) =~= first);
    }
    while i < map.entries.len()
        invariant
            i <= map.entries@.len(),
            texts(names@) == first + closed_names(kind@, map.entries@.take(i as int)),
        decreases map.entries@.len() - i,
    {
        proof {
            lemma_one_more(kind@, map.entries@, i as int);
        }
        if map.entries[i].1.is_closed_by_user() {
            let ghost before = names@;
            let mut name = kind.to_owned();
            name.append(map.entries[i].0.as_str());
            names.push(name);
            assert(texts(names@) =~= texts(before).push(name@));
        }
        i += 1;
    }
    assert(map.entries@.take(i as int) =~= map.entries@);
}

/// The closed mirrors of a host, workspaces first.
pub open spec fn closed_mirrors(state: HostState) -> Seq<Seq<char>> {
    closed_names("workspace "@, state.workspaces.entries@) + closed_names(
        "pane "@,
        state.panes.entries@,
    )
}

/// After a restore without a filter a host has no closed mirror left.
pub proof fn law_a_full_restore_leaves_nothing_closed(before: HostState, after: HostState)
    requires
        after.wf(),
        is_restored(before, after, None),
    ensures
        closed_mirrors(after) == Seq::<Seq<char>>::empty(),
{
    lemma_none_closed(before.workspaces@, after.workspaces);
    lemma_none_closed(before.panes@, after.panes);
    lemma_no_names("workspace "@, after.workspaces.entries@);
    lemma_no_names("pane "@, after.panes.entries@);
    assert(closed_mirrors(after) =~= Seq::empty());
}

proof fn lemma_none_closed<V: Closable>(before: Map<Seq<char>, V>, after: IdMap<V>)
    requires
        after.wf(),
        after@ == before.remove_keys(restorable(before, None)),
    ensures
        forall|i: int|
            0 <= i < after.entries@.len() ==> !(#[trigger] after.entries@[i]).1.closed_by_user(),
{
    assert forall|i: int| 0 <= i < after.entries@.len() implies !(
    #[trigger] after.entries@[i]).1.closed_by_user() by {
        lemma_one_place(after, i);
        let id = after.id(i);
        assert(!restorable(before, None).contains(id));
    }
}

proof fn lemma_no_names<V: Closable>(kind: Seq<char>, entries: Seq<(String, V)>)
    requires
        forall|i: int| 0 <= i < entries.len() ==> !(#[trigger] entries[i]).1.closed_by_user(),
    ensures
        closed_names(kind, entries) == Seq::<Seq<char>>::empty(),
    decreases entries.len(),
{
    if entries.len() > 0 {
        let before = entries.drop_last();
        assert forall|i: int| 0 <= i < before.len() implies !(
        #[trigger] before[i]).1.closed_by_user() by {
            assert(before[i] == entries[i]);
        }
        lemma_no_names(kind, before);
        lemma_one_more(kind, entries, entries.len() - 1);
        assert(entries.take(entries.len() as int) =~= entries);
        assert(entries.take(entries.len() - 1) =~= before);
        assert(!entries[entries.len() - 1].1.closed_by_user());
    } else {
        reveal(Seq::filter);
        assert(closed_names(kind, entries) =~= Seq::empty());
    }
}

/// The lines on a host: what is mirrored, and what the user closed of it.
pub open spec fn host_lines(host: HostConfig, state: HostState) -> Seq<Seq<char>> {
    let counts = "host "@ + host.name@ + " ("@ + host.target@ + "): "@ + decimal(
        live_count(state.workspaces.entries@),
    ) + " mirror workspaces, "@ + decimal(live_count(state.panes.entries@)) + " mirror panes"@;
    if closed_mirrors(state).len() == 0 {
        seq![counts]
    } else {
        seq![counts, "  closed mirrors (restorable): "@ + join(closed_mirrors(state), ", "@)]
    }
}

fn push_host(out: &mut Vec<String>, host: &HostConfig, state: &HostState)
    ensures
        texts(final(out)@) == texts(old(out)@) + host_lines(*host, *state),
{
    let ghost first = out@;
    let mut counts = "host ".to_owned();
    counts.append(host.name.as_str());
    counts.append(" (");
    counts.append(host.target.as_str());
    counts.append("): ");
    push_decimal(&mut counts, count_live(&state.workspaces) as u64);
    counts.append(" mirror workspaces, ");
    push_decimal(&mut counts, count_live(&state.panes) as u64);
    counts.append(" mirror panes");
    out.push(counts);
    assert(texts(out@) =~= texts(first).push(counts@));
    let mut closed: Vec<String> = Vec::new();
    assert(texts(closed@) =~= Seq::empty());
    push_closed(&mut closed, "workspace ", &state.workspaces);
    push_closed(&mut closed, "pane ", &state.panes);
    proof {
        assert(texts(closed@) =~= closed_mirrors(*state));
        assert(texts(closed@).len() == closed@.len());
    }
    if closed.len() > 0 {
        let mut line = "  closed mirrors (restorable): ".to_owned();
        line.append(join_texts(closed.as_slice(), ", ").as_str());
        let ghost before = out@;
        out.push(line);
        assert(texts(out@) =~= texts(before).push(line@));
    }
    assert(texts(out@) =~= texts(first) + host_lines(*host, *state));
}

/// The lines on the first `n` hosts.
pub open spec fn hosts_lines(hosts: Seq<HostConfig>, states: Seq<HostState>, n: int) -> Seq<
    Seq<char>,
>
    decreases n,
{
    if n <= 0 {
        Seq::empty()
    } else {
        hosts_lines(hosts, states, n - 1) + host_lines(hosts[n - 1], states[n - 1])
    }
}

// ---------------------------------------------------------------------------
// the log

/// The last five lines of a log.
pub open spec fn recent(log: Seq<char>) -> Seq<Seq<char>> {
    let all = lines(trim_end(log));
    if all.len() > 5 {
        all.skip(all.len() - 5)
    } else {
        all
    }
}

/// The lines on the log.
pub open spec fn log_lines(log: Seq<char>) -> Seq<Seq<char>> {
    seq!["recent log:"@] + recent(log).map_values(|line: Seq<char>| "  "@ + line)
}

fn push_log(out: &mut Vec<String>, log: &str)
    ensures
        texts(final(out)@) == texts(old(out)@) + log_lines(log@),
{
    let chars = chars_of(log);
    let len = trimmed_len(chars.as_slice());
    let text = slice_subrange(chars.as_slice(), 0, len);
    assert(text@ =~= trim_end(log@));
    let all = lines_of(text);
    let ghost first = out@;
    out.push("recent log:".to_owned());
    let ghost shown = recent(log@).map_values(|line: Seq<char>| "  "@ + line);
    let start: usize = if all.len() > 5 {
        all.len() - 5
    } else {
        0
    };
    proof {
        assert(texts(all@).len() == all@.len());
        assert(texts(out@) =~= texts(first) + seq!["recent log:"@] + shown.take(0));
        assert(recent(log@) =~= texts(all@).skip(start as int));
    }
    let mut i: usize = start;
    while i < all.len()
        invariant
            start <= i <= all@.len(),
            texts(all@).len() == all@.len(),
            recent(log@) == texts(all@).skip(start as int),
            shown == recent(log@).map_values(|line: Seq<char>| "  "@ + line),
            texts(out@) == texts(first) + seq!["recent log:"@] + shown.take(i - start),
        decreases all@.len() - i,
    {
        let mut line = "  ".to_owned();
        line.append(all[i].as_str());
        let ghost before = out@;
        out.push(line);
        proof {
            assert(texts(all@)[i as int] == all@[i as int]@);
            assert(recent(log@)[i - start] == all@[i as int]@);
            assert(shown[i - start] == line@);
            assert(texts(out@) =~= texts(before).push(line@));
            assert(shown.take(i - start + 1) =~= shown.take(i - start).push(line@));
        }
        i += 1;
    }
    assert(shown.take(i - start) =~= shown);
    assert(texts(out@) =~= texts(first) + log_lines(log@));
}

// ---------------------------------------------------------------------------
// the report

/// The line on the file that was read.
pub open spec fn source_lines(config: Config) -> Seq<Seq<char>> {
    match config.source {
        Some(path) => seq!["config: "@ + path@],
        None => Seq::empty(),
    }
}

/// The lines on the configuration and on what it names.
pub open spec fn config_lines(
    config: Config,
    states: Seq<HostState>,
    log: Option<&str>,
) -> Seq<Seq<char>> {
    source_lines(config) + config_warnings(config) + hosts_lines(
        config.hosts@,
        states,
        config.hosts@.len() as int,
    ) + (match log {
        Some(text) => log_lines(text@),
        None => Seq::empty(),
    })
}

/// All that `status` prints. Without a configuration it ends after the line on
/// the daemon. There is a state for each host, and a log if there is one.
pub fn cmd_status(
    running: Option<i32>,
    paused: bool,
    config: Option<&Config>,
    states: &[HostState],
    log: Option<&str>,
) -> (out: Vec<String>)
    requires
        config matches Some(c) ==> states@.len() == c.hosts@.len(),
    ensures
        texts(out@) == seq![daemon_line(running, paused)] + (match config {
            Some(c) => config_lines(*c, states@, log),
            None => Seq::empty(),
        }),
{
    let mut out: Vec<String> = Vec::new();
    out.push(daemon_text(running, paused));
    let ghost head = seq![daemon_line(running, paused)];
    assert(texts(out@) =~= head);
    let c = match config {
        Some(c) => c,
        None => {
            assert(head + Seq::empty() =~= head);
            return out;
        },
    };
    let ghost source = source_lines(*c);
    if let Some(path) = &c.source {
        let mut line = "config: ".to_owned();
        line.append(path.as_str());
        let ghost before = out@;
        out.push(line);
        assert(texts(out@) =~= texts(before).push(line@));
    }
    assert(texts(out@) =~= head + source);
    push_warnings(&mut out, c);
    let ghost so_far = texts(out@);
    assert(so_far =~= head + (source + config_warnings(*c)));
    let mut i: usize = 0;
    assert(so_far + hosts_lines(c.hosts@, states@, 0) =~= so_far);
    while i < c.hosts.len()
        invariant
            i <= c.hosts@.len(),
            states@.len() == c.hosts@.len(),
            texts(out@) == so_far + hosts_lines(c.hosts@, states@, i as int),
        decreases c.hosts@.len() - i,
    {
        push_host(&mut out, &c.hosts[i], &states[i]);
        assert(texts(out@) =~= so_far + hosts_lines(c.hosts@, states@, i + 1));
        i += 1;
    }
    if let Some(text) = log {
        push_log(&mut out, text);
    }
    assert(texts(out@) =~= head + config_lines(*c, states@, log));
    out
}

} // verus!
