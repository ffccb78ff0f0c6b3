//! Restoring mirrors that the user closed.

use crate::state::{id_passes, is_restored, passes, HostState};
use crate::text::{decimal, push_decimal};
use vstd::prelude::*;

verus! {

/// A host and what is kept of it.
pub struct HostMap {
    pub name: String,
    pub state: HostState,
}

/// How many workspaces and panes the first `n` hosts map.
pub open spec fn total_entries(hosts: Seq<HostMap>, n: int) -> nat
    decreases n,
{
    if n <= 0 {
        0
    } else {
        total_entries(hosts, n - 1) + hosts[n - 1].state.entry_count()
    }
}

proof fn lemma_total_entries(a: Seq<HostMap>, b: Seq<HostMap>, n: int)
    requires
        forall|i: int|
            0 <= i < n ==> (#[trigger] a[i]).state.entry_count() == b[i].state.entry_count(),
    ensures
        total_entries(a, n) == total_entries(b, n),
    decreases n,
{
    if n > 0 {
        lemma_total_entries(a, b, n - 1);
        assert(a[n - 1].state.entry_count() == b[n - 1].state.entry_count());
    }
}

proof fn lemma_total_grows(a: Seq<HostMap>, m: int, n: int)
    requires
        0 <= m <= n,
    ensures
        total_entries(a, m) <= total_entries(a, n),
    decreases n,
{
    if m < n {
        lemma_total_grows(a, m, n - 1);
    }
}

/// Un-tombstones mirrors that the user closed: on all hosts or on the one with
/// the given name, all of them or the one with the given id. Tells how many.
pub fn cmd_restore(
    hosts: &mut Vec<HostMap>,
    filter_host: Option<&str>,
    filter_id: Option<&str>,
) -> (cleared: usize)
    requires
        forall|i: int| 0 <= i < old(hosts)@.len() ==> (#[trigger] old(hosts)@[i]).state.wf(),
        total_entries(old(hosts)@, old(hosts)@.len() as int) <= usize::MAX,
    ensures
        final(hosts)@.len() == old(hosts)@.len(),
        forall|i: int|
            0 <= i < final(hosts)@.len() ==> {
                &&& (#[trigger] final(hosts)@[i]).state.wf()
                &&& final(hosts)@[i].name == old(hosts)@[i].name
                &&& if passes(filter_host, old(hosts)@[i].name@) {
                    is_restored(old(hosts)@[i].state, final(hosts)@[i].state, filter_id)
                } else {
                    final(hosts)@[i] == old(hosts)@[i]
                }
            },
        forall|i: int|
            0 <= i < final(hosts)@.len() && (filter_host matches Some(f) && f@ != old(
                hosts,
            )@[i].name@) ==> #[trigger] final(hosts)@[i] == old(hosts)@[i],
        cleared == total_entries(old(hosts)@, old(hosts)@.len() as int) - total_entries(
            final(hosts)@,
            old(hosts)@.len() as int,
        ),
{
    let ghost first = hosts@;
    let count: usize = hosts.len();
    let mut cleared: usize = 0;
    let mut i: usize = 0;
    while i < count
        invariant
            i <= count == hosts@.len(),
            first == old(hosts)@,
            first.len() == count,
            total_entries(first, count as int) <= usize::MAX,
            cleared + total_entries(hosts@, i as int) == total_entries(first, i as int),
            forall|j: int| i <= j < count ==> #[trigger] hosts@[j] == first[j],
            forall|j: int| 0 <= j < count ==> (#[trigger] hosts@[j]).state.wf(),
            forall|j: int|
                0 <= j < i ==> {
                    &&& (#[trigger] hosts@[j]).name == first[j].name
                    &&& if passes(filter_host, first[j].name@) {
                        is_restored(first[j].state, hosts@[j].state, filter_id)
                    } else {
                        hosts@[j] == first[j]
                    }
                },
        decreases count - i,
    {
        proof {
            lemma_total_grows(first, i + 1, count as int);
        }
        let ghost before = hosts@;
        if id_passes(filter_host, hosts[i].name.as_str()) {
            let n = hosts[i].state.restore(filter_id);
            proof {
                lemma_total_entries(before, hosts@, i as int);
                assert(hosts@[i as int].name == first[i as int].name);
            }
            cleared = cleared + n;
        }
        i += 1;
    }
    cleared
}

/// What a restore says, and whether the daemon is to be poked: it is the one
/// that makes the mirrors again.
pub fn restore_report(cleared: usize, running: bool) -> (report: (String, bool))
    ensures
        report.0@ == if cleared == 0 {
            "nothing to restore (no tombstoned mirrors matched)"@
        } else if running {
            "restored "@ + decimal(cleared as nat) + " mirror(s) — daemon syncing now"@
        } else {
            "restored "@ + decimal(cleared as nat)
                + " mirror(s) — they will reappear when the daemon starts"@
        },
        report.1 == (cleared > 0 && running),
{
    if cleared == 0 {
        return ("nothing to restore (no tombstoned mirrors matched)".to_owned(), false);
    }
    let mut msg = "restored ".to_owned();
    push_decimal(&mut msg, cleared as u64);
    if running {
        msg.append(" mirror(s) — daemon syncing now");
    } else {
        msg.append(" mirror(s) — they will reappear when the daemon starts");
    }
    (msg, running)
}

} // verus!
