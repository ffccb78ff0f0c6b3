//! Which events the daemon subscribes to.
//!
//! Structure events are broadcast; the status of an agent is subscribed to pane
//! by pane. `layout.updated` is subscribed to on neither side: the daemon's own
//! writes fire it, and each would set off a pass that writes again.

use crate::json::Json;
use crate::state::{live_among, pair_texts, HostState};
use crate::text::{join, join_texts, same_text, text_less, texts};
use vstd::prelude::*;

verus! {

/// The structure events of a remote server.
pub open spec fn broadcast_kinds() -> Seq<Seq<char>> {
    seq![
        "workspace.created"@,
        "workspace.renamed"@,
        "workspace.closed"@,
        "tab.created"@,
        "tab.renamed"@,
        "tab.closed"@,
        "pane.created"@,
        "pane.closed"@,
        "pane.exited"@,
    ]
}

/// The events of the local server that tell what the user wants.
pub open spec fn local_kinds() -> Seq<Seq<char>> {
    seq!["workspace.created"@, "workspace.closed"@, "pane.closed"@, "tab.renamed"@]
}

/// The members of the subscription to a broadcast event.
pub open spec fn kind_record(kind: Seq<char>) -> Seq<(Seq<char>, Seq<char>)> {
    seq![("type"@, kind)]
}

/// The members of the subscription to the agent status of a pane.
pub open spec fn pane_record(pane_id: Seq<char>) -> Seq<(Seq<char>, Seq<char>)> {
    seq![("type"@, "pane.agent_status_changed"@), ("pane_id"@, pane_id)]
}

/// The members of each subscription for these panes.
pub open spec fn sub_records(pane_ids: Seq<Seq<char>>) -> Seq<Seq<(Seq<char>, Seq<char>)>> {
    broadcast_kinds().map_values(|kind: Seq<char>| kind_record(kind)) + pane_ids.map_values(
        |id: Seq<char>| pane_record(id),
    )
}

pub open spec fn are_records(
    subs: Seq<Json>,
    records: Seq<Seq<(Seq<char>, Seq<char>)>>,
) -> bool {
    &&& subs.len() == records.len()
    &&& forall|i: int| 0 <= i < subs.len() ==> (#[trigger] subs[i]).is_record(records[i])
}

fn push_kind(
    subs: &mut Vec<Json>,
    kind: &str,
    Ghost(records): Ghost<Seq<Seq<(Seq<char>, Seq<char>)>>>,
)
    requires
        are_records(old(subs)@, records),
    ensures
        are_records(final(subs)@, records.push(kind_record(kind@))),
{
    let v = Json::record("type", kind);
    assert(v.is_record(kind_record(kind@)));
    subs.push(v);
}

/// The subscriptions of a remote server: all structure events, and the agent
/// status of each of these panes.
pub fn sub_list(pane_ids: &[String]) -> (subs: Vec<Json>)
    ensures
        are_records(subs@, sub_records(texts(pane_ids@))),
{
    let mut subs: Vec<Json> = Vec::new();
    let ghost kinds = broadcast_kinds().map_values(|kind: Seq<char>| kind_record(kind));
    push_kind(&mut subs, "workspace.created", Ghost(kinds.take(0)));
    assert(kinds.take(0).push(kinds[0]) =~= kinds.take(1));
    push_kind(&mut subs, "workspace.renamed", Ghost(kinds.take(1)));
    assert(kinds.take(1).push(kinds[1]) =~= kinds.take(2));
    push_kind(&mut subs, "workspace.closed", Ghost(kinds.take(2)));
    assert(kinds.take(2).push(kinds[2]) =~= kinds.take(3));
    push_kind(&mut subs, "tab.created", Ghost(kinds.take(3)));
    assert(kinds.take(3).push(kinds[3]) =~= kinds.take(4));
    push_kind(&mut subs, "tab.renamed", Ghost(kinds.take(4)));
    assert(kinds.take(4).push(kinds[4]) =~= kinds.take(5));
    push_kind(&mut subs, "tab.closed", Ghost(kinds.take(5)));
    assert(kinds.take(5).push(kinds[5]) =~= kinds.take(6));
    push_kind(&mut subs, "pane.created", Ghost(kinds.take(6)));
    assert(kinds.take(6).push(kinds[6]) =~= kinds.take(7));
    push_kind(&mut subs, "pane.closed", Ghost(kinds.take(7)));
    assert(kinds.take(7).push(kinds[7]) =~= kinds.take(8));
    push_kind(&mut subs, "pane.exited", Ghost(kinds.take(8)));
    assert(kinds.take(8).push(kinds[8]) =~= kinds);
    let ghost records = sub_records(texts(pane_ids@));
    assert(records.take(9) =~= kinds);
    let mut i: usize = 0;
    while i < pane_ids.len()
        invariant
            i <= pane_ids@.len(),
            records == sub_records(texts(pane_ids@)),
            are_records(subs@, records.take(9 + i)),
        decreases pane_ids@.len() - i,
    {
        let id = &pane_ids[i];
        let v = Json::record_of_two(
            "type",
            "pane.agent_status_changed",
            "pane_id",
            id.as_str(),
        );
        assert(v.is_record(pane_record(id@)));
        assert(texts(pane_ids@)[i as int] == id@);
        assert(records[9 + i] == pane_record(id@));
        subs.push(v);
        assert(records.take(9 + i + 1) =~= records.take(9 + i).push(pane_record(id@)));
        i += 1;
    }
    assert(records.take(9 + i) =~= records);
    subs
}

/// The subscriptions of the local server.
pub fn local_sub_list() -> (subs: Vec<Json>)
    ensures
        are_records(subs@, local_kinds().map_values(|kind: Seq<char>| kind_record(kind))),
{
    let mut subs: Vec<Json> = Vec::new();
    let ghost kinds = local_kinds().map_values(|kind: Seq<char>| kind_record(kind));
    push_kind(&mut subs, "workspace.created", Ghost(kinds.take(0)));
    assert(kinds.take(0).push(kinds[0]) =~= kinds.take(1));
    push_kind(&mut subs, "workspace.closed", Ghost(kinds.take(1)));
    assert(kinds.take(1).push(kinds[1]) =~= kinds.take(2));
    push_kind(&mut subs, "pane.closed", Ghost(kinds.take(2)));
    assert(kinds.take(2).push(kinds[2]) =~= kinds.take(3));
    push_kind(&mut subs, "tab.renamed", Ghost(kinds.take(3)));
    assert(kinds.take(3).push(kinds[3]) =~= kinds);
    subs
}

/// No subscription, remote or local, is to `layout.updated`: what the daemon
/// writes cannot set off the next write.
pub proof fn law_layout_updates_are_not_subscribed(pane_ids: Seq<Seq<char>>)
    ensures
        forall|i: int|
            0 <= i < sub_records(pane_ids).len() ==> (#[trigger] sub_records(pane_ids)[i])[0].0
                == "type"@ && sub_records(pane_ids)[i][0].1 != "layout.updated"@,
        !local_kinds().contains("layout.updated"@),
{
    reveal_strlit("layout.updated");
    reveal_strlit("workspace.created");
    reveal_strlit("workspace.renamed");
    reveal_strlit("workspace.closed");
    reveal_strlit("tab.created");
    reveal_strlit("tab.renamed");
    reveal_strlit("tab.closed");
    reveal_strlit("pane.created");
    reveal_strlit("pane.closed");
    reveal_strlit("pane.exited");
    reveal_strlit("pane.agent_status_changed");
    let odd = "layout.updated"@;
    assert(odd[0] == 'l');
    assert forall|i: int| 0 <= i < sub_records(pane_ids).len() implies (
    #[trigger] sub_records(pane_ids)[i])[0].0 == "type"@ && sub_records(pane_ids)[i][0].1
        != odd by {
        if i < 9 {
            assert(sub_records(pane_ids)[i] == kind_record(broadcast_kinds()[i]));
            assert(broadcast_kinds()[i][0] != 'l');
        } else {
            assert(sub_records(pane_ids)[i] == pane_record(pane_ids[i - 9]));
            assert("pane.agent_status_changed"@[0] == 'p');
        }
    }
    assert forall|i: int| 0 <= i < local_kinds().len() implies #[trigger] local_kinds()[i]
        != odd by {
        assert(local_kinds()[i][0] != 'l');
    }
}

// ---------------------------------------------------------------------------
// when to subscribe anew

/// The remote ids of the live panes.
pub open spec fn live_ids(state: HostState) -> Seq<Seq<char>> {
    state.live().map_values(|p: (Seq<char>, Seq<char>)| p.0)
}

/// The key of a set of panes.
pub open spec fn pane_key(ids: Seq<Seq<char>>) -> Seq<char> {
    join(ids, ","@)
}

/// The key of a subscription without panes.
pub open spec fn broadcast_key() -> Seq<char> {
    "<broadcast>"@
}

/// The panes to subscribe to, and their key: none when they are subscribed to
/// already. Panes whose mirrors the user closed are left out.
pub fn resubscription(state: &HostState, subscribed_key: &str) -> (wanted: Option<
    (Vec<String>, String),
>)
    ensures
        match wanted {
            Some((ids, key)) => {
                &&& texts(ids@) == live_ids(*state)
                &&& key@ == pane_key(live_ids(*state))
                &&& key@ != subscribed_key@
            },
            None => pane_key(live_ids(*state)) == subscribed_key@,
        },
{
    let pairs = state.live_panes();
    let mut ids: Vec<String> = Vec::new();
    let mut i: usize = 0;
    assert(texts(ids@) =~= live_ids(*state).take(0));
    assert(pair_texts(pairs@).len() == pairs@.len());
    while i < pairs.len()
        invariant
            i <= pairs@.len(),
            pair_texts(pairs@) == state.live(),
            pairs@.len() == state.live().len(),
            texts(ids@) == live_ids(*state).take(i as int),
        decreases pairs@.len() - i,
    {
        let ghost before = ids@;
        ids.push(pairs[i].0.clone());
        proof {
            assert(pair_texts(pairs@)[i as int].0 == pairs@[i as int].0@);
            assert(live_ids(*state)[i as int] == pairs@[i as int].0@);
            assert(texts(ids@) =~= texts(before).push(pairs@[i as int].0@));
            assert(live_ids(*state).take(i + 1) =~= live_ids(*state).take(i as int).push(
                pairs@[i as int].0@,
            ));
        }
        i += 1;
    }
    assert(live_ids(*state).take(i as int) =~= live_ids(*state));
    let key = join_texts(ids.as_slice(), ",");
    if same_text(key.as_str(), subscribed_key) {
        None
    } else {
        Some((ids, key))
    }
}

/// The panes of a subscription come in the order of their remote ids, each
/// once: two states with the same live panes have the same key.
pub proof fn law_live_ids_are_sorted(state: HostState)
    requires
        state.wf(),
    ensures
        forall|i: int, j: int|
            0 <= i < j < live_ids(state).len() ==> text_less(
                #[trigger] live_ids(state)[i],
                #[trigger] live_ids(state)[j],
            ),
{
    let entries = state.panes.entries@;
    lemma_live_among_sorted(state, entries.len() as int);
    assert forall|i: int, j: int| 0 <= i < j < live_ids(state).len() implies text_less(
        #[trigger] live_ids(state)[i],
        #[trigger] live_ids(state)[j],
    ) by {
        assert(text_less(state.live()[i].0, state.live()[j].0));
    }
}

/// Is this the id of one of the first `n` panes?
spec fn is_pane_id(state: HostState, n: int, id: Seq<char>) -> bool {
    exists|k: int| 0 <= k < n && #[trigger] state.panes.id(k) == id
}

proof fn lemma_live_among_sorted(state: HostState, n: int)
    requires
        state.wf(),
        0 <= n <= state.panes.entries@.len(),
    ensures
        forall|i: int, j: int|
            #![trigger live_among(state.panes.entries@, n)[i], live_among(state.panes.entries@, n)[j]]
            0 <= i < j < live_among(state.panes.entries@, n).len() ==> text_less(
                live_among(state.panes.entries@, n)[i].0,
                live_among(state.panes.entries@, n)[j].0,
            ),
        forall|i: int|
            0 <= i < live_among(state.panes.entries@, n).len() ==> is_pane_id(
                state,
                n,
                (#[trigger] live_among(state.panes.entries@, n)[i]).0,
            ),
    decreases n,
{
    let live = live_among(state.panes.entries@, n);
    if n > 0 {
        lemma_live_among_sorted(state, n - 1);
        let before = live_among(state.panes.entries@, n - 1);
        assert forall|i: int| 0 <= i < live.len() implies is_pane_id(
            state,
            n,
            (#[trigger] live[i]).0,
        ) by {
            if i < before.len() {
                assert(is_pane_id(state, n - 1, before[i].0));
            } else {
                assert(state.panes.id(n - 1) == live[i].0);
            }
        }
        assert forall|i: int, j: int| 0 <= i < j < live.len() implies text_less(
            (#[trigger] live[i]).0,
            (#[trigger] live[j]).0,
        ) by {
            assert(is_pane_id(state, n - 1, before[i].0));
            if j < before.len() {
                assert(text_less(before[i].0, before[j].0));
            } else {
                let k = choose|k: int|
                    0 <= k < n - 1 && #[trigger] state.panes.id(k) == before[i].0;
                assert(text_less(state.panes.id(k), state.panes.id(n - 1)));
            }
        }
    }
}

/// The key that holds after an answer of the server: that of the panes when it
/// took them, and that of the broadcast when it took only that.
pub fn subscribed_key(key: String, accepted: bool) -> (now: String)
    ensures
        now@ == if accepted {
            key@
        } else {
            broadcast_key()
        },
{
    if accepted {
        key
    } else {
        "<broadcast>".to_owned()
    }
}

} // verus!
