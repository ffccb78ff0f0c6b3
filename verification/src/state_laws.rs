//! What the id maps, the restores and the statuses promise, entry by entry.

use crate::idmap::{lemma_one_place, IdMap};
use crate::json::Json;
use crate::restore::{total_entries, HostMap};
use crate::state::{
    hint_shown, hint_taken, is_restored, live_among, passes, HostState, PaneEntry, WsEntry,
};
use crate::sync::{pushed, some_unknown};
use crate::text::trim;
use crate::util::sane;
use vstd::prelude::*;

verus! {

// ---------------------------------------------------------------------------
// id maps

/// A map holds what its entries hold: an id is mapped just where an entry has
/// it, and to the value of that entry.
pub proof fn law_a_map_holds_its_entries<V>(m: IdMap<V>, id: Seq<char>)
    requires
        m.wf(),
    ensures
        m@.contains_key(id) <==> exists|i: int|
            0 <= i < m.entries@.len() && (#[trigger] m.entries@[i]).0@ == id,
        forall|i: int|
            0 <= i < m.entries@.len() && (#[trigger] m.entries@[i]).0@ == id
                ==> m@.contains_key(id) && m@[id] == m.entries@[i].1,
{
    assert forall|i: int|
        0 <= i < m.entries@.len() && (#[trigger] m.entries@[i]).0@ == id implies m@.contains_key(id)
        && m@[id] == m.entries@[i].1 by {
        lemma_one_place(m, i);
        assert(m.id(i) == id);
    }
    if m@.contains_key(id) {
        let k = m.place(id);
        assert(m.id(k) == id);
        assert(m.entries@[k].0@ == id);
    }
}

// ---------------------------------------------------------------------------
// live panes and owners

/// A pane is live just if its tombstone is not set, whatever else its entry
/// holds; it is then listed with its remote and its local id.
pub proof fn law_live_panes_are_those_not_closed(state: HostState)
    ensures
        forall|i: int|
            0 <= i < state.panes.entries@.len() && (#[trigger] state.panes.entries@[i]).1.tombstone
                != Some(true) ==> state.live().contains(
                (state.panes.entries@[i].0@, state.panes.entries@[i].1.local_id@),
            ),
        forall|k: int|
            0 <= k < state.live().len() ==> is_open_pane(state, #[trigger] state.live()[k]),
{
    lemma_live_among(state, state.panes.entries@.len() as int);
}

/// Is this a pane, remote and local id, whose tombstone is not set?
pub open spec fn is_open_pane(state: HostState, pane: (Seq<char>, Seq<char>)) -> bool {
    exists|i: int|
        0 <= i < state.panes.entries@.len() && (#[trigger] state.panes.entries@[i]).1.tombstone
            != Some(true) && pane == (
            state.panes.entries@[i].0@,
            state.panes.entries@[i].1.local_id@,
        )
}

proof fn lemma_live_among(state: HostState, n: int)
    requires
        0 <= n <= state.panes.entries@.len(),
    ensures
        forall|i: int|
            0 <= i < n && (#[trigger] state.panes.entries@[i]).1.tombstone != Some(true)
                ==> live_among(state.panes.entries@, n).contains(
                (state.panes.entries@[i].0@, state.panes.entries@[i].1.local_id@),
            ),
        forall|k: int|
            0 <= k < live_among(state.panes.entries@, n).len() ==> is_open_pane(
                state,
                #[trigger] live_among(state.panes.entries@, n)[k],
            ),
    decreases n,
{
    if n > 0 {
        lemma_live_among(state, n - 1);
        let entries = state.panes.entries@;
        let before = live_among(entries, n - 1);
        let live = live_among(entries, n);
        assert forall|i: int| 0 <= i < n && (#[trigger] entries[i]).1.tombstone != Some(
            true,
        ) implies live.contains((entries[i].0@, entries[i].1.local_id@)) by {
            let pair = (entries[i].0@, entries[i].1.local_id@);
            if i < n - 1 {
                assert(before.contains(pair));
                let k = choose|k: int| 0 <= k < before.len() && before[k] == pair;
                assert(live[k] == pair);
            } else {
                assert(live[live.len() - 1] == pair);
            }
        }
        assert forall|k: int| 0 <= k < live.len() implies is_open_pane(
            state,
            #[trigger] live[k],
        ) by {
            if k < before.len() {
                assert(live[k] == before[k]);
            } else {
                assert(entries[n - 1].1.tombstone != Some(true));
            }
        }
    }
}

/// A local id is mapped by a host just if a workspace, a tab or a pane of it,
/// closed or not, has that local id.
pub proof fn law_every_entry_is_mapped(state: HostState, local_id: Seq<char>)
    ensures
        forall|i: int|
            0 <= i < state.workspaces.entries@.len() ==> state.maps(
                (#[trigger] state.workspaces.entries@[i]).1.local_id@,
            ),
        forall|i: int|
            0 <= i < state.tabs.entries@.len() ==> state.maps(
                (#[trigger] state.tabs.entries@[i]).1.local_id@,
            ),
        forall|i: int|
            0 <= i < state.panes.entries@.len() ==> state.maps(
                (#[trigger] state.panes.entries@[i]).1.local_id@,
            ),
        (forall|i: int|
            0 <= i < state.workspaces.entries@.len()
                ==> (#[trigger] state.workspaces.entries@[i]).1.local_id@ != local_id) && (forall|
            i: int,
        |
            0 <= i < state.tabs.entries@.len() ==> (#[trigger] state.tabs.entries@[i]).1.local_id@
                != local_id) && (forall|i: int|
            0 <= i < state.panes.entries@.len() ==> (#[trigger] state.panes.entries@[i]).1.local_id@
                != local_id) ==> !state.maps(local_id),
{
}

// ---------------------------------------------------------------------------
// restores

/// A filter lets just its own text pass: no text that begins with it, contains
/// it or differs from it in any other way.
pub proof fn law_a_filter_matches_by_equality(filter: Option<&str>, id: Seq<char>)
    ensures
        filter is None ==> passes(filter, id),
        filter matches Some(f) ==> (passes(filter, id) <==> f@ == id),
{
}

/// A restore removes a workspace or a pane just if its tombstone is set and no
/// filter is given or its id is the filter. Everything else stays as it is.
pub proof fn law_a_restore_is_by_tombstone_and_id(
    before: HostState,
    after: HostState,
    filter: Option<&str>,
    id: Seq<char>,
)
    requires
        is_restored(before, after, filter),
    ensures
        after.panes@.contains_key(id) <==> before.panes@.contains_key(id) && !(
        before.panes@[id].tombstone == Some(true) && (filter matches Some(f) ==> f@ == id)),
        after.panes@.contains_key(id) ==> after.panes@[id] == before.panes@[id],
        after.workspaces@.contains_key(id) <==> before.workspaces@.contains_key(id) && !(
        before.workspaces@[id].tombstone == Some(true) && (filter matches Some(f) ==> f@ == id)),
        after.workspaces@.contains_key(id) ==> after.workspaces@[id] == before.workspaces@[id],
        after.tabs == before.tabs,
        after.shared_workspace == before.shared_workspace,
        after.pending_default_tab == before.pending_default_tab,
        after.prev_remote_ids == before.prev_remote_ids,
        after.ratios == before.ratios,
{
}

/// With a filter, an entry with any other id keeps its entry, closed or not.
pub proof fn law_a_restore_of_one_id_keeps_the_others(
    before: HostState,
    after: HostState,
    filter: &str,
    id: Seq<char>,
)
    requires
        is_restored(before, after, Some(filter)),
        id != filter@,
    ensures
        after.panes@.contains_key(id) == before.panes@.contains_key(id),
        before.panes@.contains_key(id) ==> after.panes@[id] == before.panes@[id],
        after.workspaces@.contains_key(id) == before.workspaces@.contains_key(id),
        before.workspaces@.contains_key(id) ==> after.workspaces@[id] == before.workspaces@[id],
{
    law_a_restore_is_by_tombstone_and_id(before, after, Some(filter), id);
}

/// The entries of some hosts are counted host by host: all their workspaces and
/// all their panes.
pub proof fn law_entries_are_counted(hosts: Seq<HostMap>, host: HostMap)
    ensures
        total_entries(Seq::empty(), 0) == 0,
        total_entries(hosts.push(host), hosts.len() as int + 1) == total_entries(
            hosts,
            hosts.len() as int,
        ) + host.state.workspaces.entries@.len() + host.state.panes.entries@.len(),
{
    let more = hosts.push(host);
    assert(more[hosts.len() as int] == host);
    lemma_same_total(hosts, more, hosts.len() as int);
}

proof fn lemma_same_total(a: Seq<HostMap>, b: Seq<HostMap>, n: int)
    requires
        n <= a.len(),
        n <= b.len(),
        forall|i: int| 0 <= i < n ==> #[trigger] a[i] == b[i],
    ensures
        total_entries(a, n) == total_entries(b, n),
    decreases n,
{
    if n > 0 {
        lemma_same_total(a, b, n - 1);
        assert(a[n - 1] == b[n - 1]);
    }
}

// ---------------------------------------------------------------------------
// statuses

/// The status of a pane that is mapped and whose tombstone is not set is pushed,
/// whatever else its entry holds, and no other status is. They are pushed in
/// order.
pub proof fn law_statuses_of_open_mirrors_are_pushed(
    state: HostState,
    statuses: Seq<(String, Json)>,
    i: int,
)
    requires
        0 <= i < statuses.len(),
    ensures
        pushed(state, statuses).contains(statuses[i]) <==> state.panes@.contains_key(
            statuses[i].0@,
        ) && state.panes@[statuses[i].0@].tombstone != Some(true),
        forall|k: int|
            0 <= k < pushed(state, statuses).len() ==> statuses.contains(
                #[trigger] pushed(state, statuses)[k],
            ),
        pushed(state, statuses) == pushed(state, statuses.drop_last()) + (
        if state.panes@.contains_key(statuses.last().0@)
            && state.panes@[statuses.last().0@].tombstone != Some(true) {
            seq![statuses.last()]
        } else {
            Seq::empty()
        }),
        pushed(state, Seq::empty()) == Seq::<(String, Json)>::empty(),
    decreases statuses.len(),
{
    reveal(Seq::filter);
    let before = statuses.drop_last();
    let last = statuses.last();
    let all = pushed(state, statuses);
    let some = pushed(state, before);
    assert(pushed(state, Seq::empty()) =~= Seq::<(String, Json)>::empty());
    assert(all =~= some + (if state.panes@.contains_key(last.0@) && state.panes@[last.0@].tombstone
        != Some(true) {
        seq![last]
    } else {
        Seq::empty()
    }));
    assert forall|k: int| 0 <= k < all.len() implies statuses.contains(#[trigger] all[k]) by {
        if k < some.len() {
            assert(before.len() > 0) by {
                if before.len() == 0 {
                    assert(some =~= Seq::<(String, Json)>::empty());
                }
            }
            law_statuses_of_open_mirrors_are_pushed(state, before, 0);
            assert(before.contains(some[k]));
            let j = choose|j: int| 0 <= j < before.len() && before[j] == some[k];
            assert(statuses[j] == all[k]);
        } else {
            assert(statuses[statuses.len() - 1] == all[k]);
        }
    }
    let open = state.panes@.contains_key(statuses[i].0@)
        && state.panes@[statuses[i].0@].tombstone != Some(true);
    if open {
        if i < before.len() {
            law_statuses_of_open_mirrors_are_pushed(state, before, i);
            assert(before[i] == statuses[i]);
            let k = choose|k: int| 0 <= k < some.len() && some[k] == statuses[i];
            assert(all[k] == statuses[i]);
        } else {
            assert(all[some.len() as int] == statuses[i]);
        }
    } else if all.contains(statuses[i]) {
        lemma_pushed_are_open(state, statuses);
        let k = choose|k: int| 0 <= k < all.len() && all[k] == statuses[i];
        assert(state.panes@.contains_key(all[k].0@));
    }
}

proof fn lemma_pushed_are_open(state: HostState, statuses: Seq<(String, Json)>)
    ensures
        forall|k: int|
            0 <= k < pushed(state, statuses).len() ==> state.panes@.contains_key(
                (#[trigger] pushed(state, statuses)[k]).0@,
            ) && state.panes@[pushed(state, statuses)[k].0@].tombstone != Some(true),
    decreases statuses.len(),
{
    reveal(Seq::filter);
    if statuses.len() > 0 {
        lemma_pushed_are_open(state, statuses.drop_last());
        let some = pushed(state, statuses.drop_last());
        let all = pushed(state, statuses);
        assert forall|k: int| 0 <= k < all.len() implies state.panes@.contains_key(
            (#[trigger] all[k]).0@,
        ) && state.panes@[all[k].0@].tombstone != Some(true) by {
            if k < some.len() {
                assert(all[k] == some[k]);
            }
        }
    }
}

/// A full pass is asked for just if a status is of a pane that is not mapped; a
/// pane whose mirror is closed asks for none.
pub proof fn law_unknown_panes_ask_for_a_pass(state: HostState, statuses: Seq<(String, Json)>)
    ensures
        forall|i: int|
            0 <= i < statuses.len() && !state.panes@.contains_key((#[trigger] statuses[i]).0@)
                ==> some_unknown(state, statuses),
        (forall|i: int|
            0 <= i < statuses.len() ==> state.panes@.contains_key((#[trigger] statuses[i]).0@))
            ==> !some_unknown(state, statuses),
{
}

// ---------------------------------------------------------------------------
// notices

/// A notice is shown just if it is less than thirty seconds old and holds more
/// than white space; what was read is consumed whatever it is.
pub proof fn law_a_notice_is_shown_while_fresh(msg: Seq<char>, age: u64)
    ensures
        age < 30 && trim(msg).len() > 0 ==> hint_taken(Some(msg), Some(age)) == (
            Some(trim(msg)),
            true,
        ),
        age >= 30 || trim(msg).len() == 0 ==> hint_taken(Some(msg), Some(age)) == (
            None::<Seq<char>>,
            true,
        ),
        hint_taken(Some(msg), None) == (None::<Seq<char>>, true),
        hint_taken(None, Some(age)) == (None::<Seq<char>>, false),
        hint_shown(msg, None) is None,
{
}

/// A name made of an id has as many characters: letters and digits of ASCII as
/// they are, and an underscore for each other one.
pub proof fn law_a_sane_name_keeps_letters_and_digits(s: Seq<char>, i: int)
    requires
        0 <= i < s.len(),
    ensures
        sane(s).len() == s.len(),
        ('0' <= s[i] <= '9' || 'A' <= s[i] <= 'Z' || 'a' <= s[i] <= 'z') ==> sane(s)[i] == s[i],
        !('0' <= s[i] <= '9' || 'A' <= s[i] <= 'Z' || 'a' <= s[i] <= 'z') ==> sane(s)[i] == '_',
{
}

/// Only a tombstone that is set counts.
pub proof fn law_only_a_set_tombstone_counts(pane: PaneEntry, workspace: WsEntry)
    ensures
        pane.tombstoned() <==> pane.tombstone == Some(true),
        workspace.tombstoned() <==> workspace.tombstone == Some(true),
{
}

} // verus!
