//! Which mirror panes have a live streamer, and which ones to start again.

use crate::json::Json;
use crate::subscription::are_records;
use crate::state::{pair_texts, HostState};
use crate::text::{decimal, ends_with, push_decimal, same_text, text_ends_with};
use vstd::prelude::*;

verus! {

/// Is this the command line of a pane streamer? The program is known by the end
/// of its path, which varies by install; the subcommand pins it down.
pub open spec fn is_streamer(argv: Seq<Json>) -> bool {
    &&& argv.len() >= 2
    &&& argv[0].text() matches Some(exe) && text_ends_with(exe, "herdr-mirror"@)
    &&& argv[1].text() == Some("pane"@)
}

pub fn is_streamer_argv(argv: &[Json]) -> (r: bool)
    ensures
        r == is_streamer(argv@),
{
    if argv.len() < 2 {
        return false;
    }
    match (argv[0].as_str(), argv[1].as_str()) {
        (Some(exe), Some(sub)) => ends_with(exe, "herdr-mirror") && same_text(sub, "pane"),
        _ => false,
    }
}

/// Is this foreground process a streamer?
pub open spec fn is_streamer_process(process: Json) -> bool {
    match process.member("argv"@) {
        Some(argv) => match argv.items() {
            Some(items) => is_streamer(items),
            None => false,
        },
        None => false,
    }
}

fn is_streamer_entry(process: &Json) -> (r: bool)
    ensures
        r == is_streamer_process(*process),
{
    match process.get("argv") {
        Some(argv) => match argv.as_array() {
            Some(items) => is_streamer_argv(items.as_slice()),
            None => false,
        },
        None => false,
    }
}

/// The foreground processes that an answer of the server lists.
pub open spec fn foreground_processes(answer: Json) -> Option<Seq<Json>> {
    match answer.member("process_info"@) {
        Some(info) => match info.member("foreground_processes"@) {
            Some(list) => list.items(),
            None => None,
        },
        None => None,
    }
}

/// Is one of these processes a streamer?
pub open spec fn some_streamer(list: Seq<Json>) -> bool {
    exists|i: int| 0 <= i < list.len() && is_streamer_process(#[trigger] list[i])
}

/// Does a pane have a live streamer? Known only where the server answered, and
/// listed the processes.
pub open spec fn live_streamer(answer: Option<Json>) -> Option<bool> {
    match answer {
        Some(v) => match foreground_processes(v) {
            Some(list) => Some(some_streamer(list)),
            None => None,
        },
        None => None,
    }
}

/// Does a pane have a live streamer, by what the server answered?
pub fn has_live_streamer(answer: Option<Json>) -> (r: Option<bool>)
    ensures
        r == live_streamer(answer),
        (answer matches Some(v) && foreground_processes(v) is Some) <==> r is Some,
        forall|i: int|
            answer is Some && foreground_processes(answer->0) is Some && 0 <= i
                < foreground_processes(answer->0)->0.len() && is_streamer_process(
                #[trigger] foreground_processes(answer->0)->0[i],
            ) ==> r == Some(true),
        r == Some(true) ==> exists|i: int|
            0 <= i < foreground_processes(answer->0)->0.len() && is_streamer_process(
                #[trigger] foreground_processes(answer->0)->0[i],
            ),
{
    let v = match answer {
        Some(v) => v,
        None => return None,
    };
    let list = match v.get("process_info") {
        Some(info) => match info.get("foreground_processes") {
            Some(list) => match list.as_array() {
                Some(items) => items,
                None => return None,
            },
            None => return None,
        },
        None => return None,
    };
    let mut i: usize = 0;
    while i < list.len()
        invariant
            answer == Some(v),
            foreground_processes(v) == Some(list@),
            i <= list@.len(),
            forall|j: int| 0 <= j < i ==> !is_streamer_process(#[trigger] list@[j]),
        decreases list@.len() - i,
    {
        if is_streamer_entry(&list[i]) {
            assert(some_streamer(list@));
            return Some(true);
        }
        i += 1;
    }
    assert(!some_streamer(list@));
    Some(false)
}

/// What asks the server for the processes of a pane.
pub fn process_info_request(pane_id: &str) -> (v: Json)
    ensures
        v.is_record(seq![("pane_id"@, pane_id@)]),
{
    Json::record("pane_id", pane_id)
}

// ---------------------------------------------------------------------------
// healing

/// A live mirror pane, with what is known of its streamer.
pub struct Asked {
    pub remote_id: String,
    pub local_id: String,
    pub streaming: Option<bool>,
}

/// The panes whose streamers are known to be gone, among the first `n`.
pub open spec fn dead_among(asked: Seq<Asked>, n: int) -> Seq<(Seq<char>, Seq<char>)>
    decreases n,
{
    if n <= 0 {
        Seq::empty()
    } else {
        let before = dead_among(asked, n - 1);
        let a = asked[n - 1];
        if a.streaming == Some(false) {
            before.push((a.remote_id@, a.local_id@))
        } else {
            before
        }
    }
}

/// The panes to start a streamer in: those that definitely run none. One of
/// which nothing is known counts as alive, for a command typed into a pane with
/// a streamer goes into the user's remote session.
pub fn dead_panes(asked: &[Asked]) -> (dead: Vec<(String, String)>)
    ensures
        pair_texts(dead@) == dead_among(asked@, asked@.len() as int),
{
    let mut dead: Vec<(String, String)> = Vec::new();
    assert(pair_texts(dead@) =~= Seq::empty());
    let mut i: usize = 0;
    while i < asked.len()
        invariant
            i <= asked@.len(),
            pair_texts(dead@) == dead_among(asked@, i as int),
        decreases asked@.len() - i,
    {
        let a = &asked[i];
        let gone: bool = match a.streaming {
            Some(live) => !live,
            None => false,
        };
        let ghost before = dead@;
        if gone {
            dead.push((a.remote_id.clone(), a.local_id.clone()));
            assert(pair_texts(dead@) =~= pair_texts(before).push((a.remote_id@, a.local_id@)));
        }
        i += 1;
    }
    dead
}

/// A pane is healed only if it is known to run no streamer, and one such pane
/// is healed whatever the others run.
pub proof fn law_only_dead_panes_are_healed(asked: Seq<Asked>, n: int)
    requires
        0 <= n <= asked.len(),
    ensures
        forall|i: int|
            0 <= i < n && (#[trigger] asked[i]).streaming == Some(false) ==> dead_among(
                asked,
                n,
            ).contains((asked[i].remote_id@, asked[i].local_id@)),
        forall|k: int|
            0 <= k < dead_among(asked, n).len() ==> is_dead_pane(
                asked,
                #[trigger] dead_among(asked, n)[k],
            ),
    decreases n,
{
    if n > 0 {
        law_only_dead_panes_are_healed(asked, n - 1);
        let before = dead_among(asked, n - 1);
        let dead = dead_among(asked, n);
        assert forall|i: int|
            0 <= i < n && (#[trigger] asked[i]).streaming == Some(false) implies dead.contains(
            (asked[i].remote_id@, asked[i].local_id@),
        ) by {
            let pair = (asked[i].remote_id@, asked[i].local_id@);
            if i < n - 1 {
                let k = choose|k: int| 0 <= k < before.len() && before[k] == pair;
                assert(before.contains(pair));
                assert(dead[k] == pair);
            } else {
                assert(dead[dead.len() - 1] == pair);
            }
        }
        assert forall|k: int| 0 <= k < dead.len() implies is_dead_pane(
            asked,
            #[trigger] dead[k],
        ) by {
            if k < before.len() {
                assert(dead[k] == before[k]);
            } else {
                assert(asked[n - 1].streaming == Some(false));
            }
        }
    }
}

/// Is this a pane that is known to run no streamer?
pub open spec fn is_dead_pane(asked: Seq<Asked>, pane: (Seq<char>, Seq<char>)) -> bool {
    exists|i: int|
        0 <= i < asked.len() && (#[trigger] asked[i]).streaming == Some(false) && pane == (
            asked[i].remote_id@,
            asked[i].local_id@,
        )
}

/// The message that logs a healing.
pub fn heal_message(host: &str, dead: usize) -> (msg: String)
    ensures
        msg@ == "["@ + host@ + "] "@ + decimal(dead as nat)
            + " mirror pane(s) mapped but not streaming (server restart?) — re-exec'ing streamers"@,
{
    let mut msg = "[".to_owned();
    msg.append(host);
    msg.append("] ");
    push_decimal(&mut msg, dead as u64);
    msg.append(
        " mirror pane(s) mapped but not streaming (server restart?) — re-exec'ing streamers",
    );
    msg
}

// ---------------------------------------------------------------------------
// stopping

/// What clears the agent authority on each live mirror pane of a host.
pub fn clear_authority_requests(state: &HostState, source: &str) -> (requests: Vec<Json>)
    ensures
        are_records(
            requests@,
            state.live().map_values(
                |p: (Seq<char>, Seq<char>)| seq![("pane_id"@, p.1), ("source"@, source@)],
            ),
        ),
{
    let pairs = state.live_panes();
    let ghost records = state.live().map_values(
        |p: (Seq<char>, Seq<char>)| seq![("pane_id"@, p.1), ("source"@, source@)],
    );
    let mut requests: Vec<Json> = Vec::new();
    let mut i: usize = 0;
    assert(pair_texts(pairs@).len() == pairs@.len());
    while i < pairs.len()
        invariant
            i <= pairs@.len(),
            pair_texts(pairs@) == state.live(),
            pairs@.len() == state.live().len(),
            records == state.live().map_values(
                |p: (Seq<char>, Seq<char>)| seq![("pane_id"@, p.1), ("source"@, source@)],
            ),
            are_records(requests@, records.take(i as int)),
        decreases pairs@.len() - i,
    {
        let v = Json::record_of_two("pane_id", pairs[i].1.as_str(), "source", source);
        proof {
            assert(pair_texts(pairs@)[i as int].1 == pairs@[i as int].1@);
            assert(records[i as int] == seq![
                ("pane_id"@, pairs@[i as int].1@),
                ("source"@, source@),
            ]);
            assert(records.take(i + 1) =~= records.take(i as int).push(records[i as int]));
        }
        requests.push(v);
        i += 1;
    }
    assert(records.take(i as int) =~= records);
    requests
}

} // verus!
