//! The id map of a host: the heart of reconciliation.
//!
//! A remote id maps to the local id that mirrors it. A tombstone means that the
//! user closed the mirror, which is not made again until it is restored. A
//! remote id that is absent went away, and its mirror is closed.

use crate::idmap::{lemma_one_place, IdMap};
use crate::paths::{join_path, joined};
use crate::text::{chars_of, same_text, string_of, trim, trim_chars};
use crate::util::{opt_text, sane, sane_component};
use vstd::prelude::*;

verus! {

/// The mirror of a pane.
#[derive(Debug, Clone)]
pub struct PaneEntry {
    pub local_id: String,
    pub tombstone: Option<bool>,
    pub seq: u64,
    /// agent label last reported onto this pane; it sticks until it is released
    pub reported: Option<String>,
}

impl PaneEntry {
    pub open spec fn tombstoned(self) -> bool {
        self.tombstone == Some(true)
    }

    pub fn is_tombstoned(&self) -> (r: bool)
        ensures
            r == self.tombstoned(),
    {
        match self.tombstone {
            Some(t) => t,
            None => false,
        }
    }
}

/// The mirror of a workspace.
#[derive(Debug, Clone)]
pub struct WsEntry {
    pub local_id: String,
    pub tombstone: Option<bool>,
    /// root tab of a fresh mirror workspace, until the first layout takes it
    pub root_tab_local_id: Option<String>,
    /// remote label as of the last pass: tells a remote rename from a local one
    pub last_remote_label: Option<String>,
}

impl WsEntry {
    pub open spec fn tombstoned(self) -> bool {
        self.tombstone == Some(true)
    }

    pub fn is_tombstoned(&self) -> (r: bool)
        ensures
            r == self.tombstoned(),
    {
        match self.tombstone {
            Some(t) => t,
            None => false,
        }
    }
}

/// The mirror of a tab.
#[derive(Debug, Clone)]
pub struct TabEntry {
    pub local_id: String,
    pub last_remote_label: Option<String>,
    /// remote workspace of this tab, in single-workspace mode only
    pub remote_workspace: Option<String>,
}

/// All that is kept of a host between passes.
#[derive(Debug, Clone)]
pub struct HostState {
    pub workspaces: IdMap<WsEntry>,
    pub tabs: IdMap<TabEntry>,
    pub panes: IdMap<PaneEntry>,
    /// single-workspace mode: the local workspace of this host's mirror tabs
    pub shared_workspace: Option<String>,
    /// single-workspace mode: the default tab that no layout has taken yet
    pub pending_default_tab: Option<String>,
    /// remote ids of the previous pass
    pub prev_remote_ids: IdMap<()>,
    /// last split ratio that both sides agreed on, as the bits of the number
    pub ratios: IdMap<u64>,
}

impl HostState {
    pub open spec fn wf(self) -> bool {
        &&& self.workspaces.wf()
        &&& self.tabs.wf()
        &&& self.panes.wf()
        &&& self.prev_remote_ids.wf()
        &&& self.ratios.wf()
    }
}

impl Default for HostState {
    /// The state of a host of which nothing is kept.
    fn default() -> (s: HostState)
        ensures
            s.wf(),
            s.workspaces@ == Map::<Seq<char>, WsEntry>::empty(),
            s.tabs@ == Map::<Seq<char>, TabEntry>::empty(),
            s.panes@ == Map::<Seq<char>, PaneEntry>::empty(),
            s.shared_workspace is None,
            s.pending_default_tab is None,
            s.prev_remote_ids@ == Map::<Seq<char>, ()>::empty(),
            s.ratios@ == Map::<Seq<char>, u64>::empty(),
    {
        HostState {
            workspaces: IdMap::new(),
            tabs: IdMap::new(),
            panes: IdMap::new(),
            shared_workspace: None,
            pending_default_tab: None,
            prev_remote_ids: IdMap::new(),
            ratios: IdMap::new(),
        }
    }
}

// ---------------------------------------------------------------------------
// which mirrors are live

/// The live panes among the first `n` entries, in order: remote and local id.
pub open spec fn live_among(entries: Seq<(String, PaneEntry)>, n: int) -> Seq<
    (Seq<char>, Seq<char>),
>
    decreases n,
{
    if n <= 0 {
        Seq::empty()
    } else {
        let before = live_among(entries, n - 1);
        let e = entries[n - 1];
        if e.1.tombstoned() {
            before
        } else {
            before.push((e.0@, e.1.local_id@))
        }
    }
}

/// The pairs of a list as texts.
pub open spec fn pair_texts(list: Seq<(String, String)>) -> Seq<(Seq<char>, Seq<char>)> {
    list.map_values(|p: (String, String)| (p.0@, p.1@))
}

impl HostState {
    /// The live panes, in the order of their remote ids.
    pub open spec fn live(self) -> Seq<(Seq<char>, Seq<char>)> {
        live_among(self.panes.entries@, self.panes.entries@.len() as int)
    }

    /// The panes whose mirrors the user has not closed: remote and local id.
    pub fn live_panes(&self) -> (list: Vec<(String, String)>)
        ensures
            pair_texts(list@) == self.live(),
    {
        let mut list: Vec<(String, String)> = Vec::new();
        let mut i: usize = 0;
        assert(pair_texts(list@) =~= Seq::empty());
        while i < self.panes.entries.len()
            invariant
                i <= self.panes.entries@.len(),
                pair_texts(list@) == live_among(self.panes.entries@, i as int),
            decreases self.panes.entries@.len() - i,
        {
            let e = &self.panes.entries[i];
            let ghost before = list@;
            if !e.1.is_tombstoned() {
                list.push((e.0.clone(), e.1.local_id.clone()));
                assert(pair_texts(list@) =~= pair_texts(before).push((e.0@, e.1.local_id@)));
            }
            i += 1;
        }
        list
    }

    /// Does some entry map to this local id?
    pub open spec fn maps(self, local_id: Seq<char>) -> bool {
        ||| exists|i: int|
            0 <= i < self.workspaces.entries@.len() && (#[trigger] self.workspaces.entries@[i]).1.local_id@
                == local_id
        ||| exists|i: int|
            0 <= i < self.tabs.entries@.len() && (#[trigger] self.tabs.entries@[i]).1.local_id@
                == local_id
        ||| exists|i: int|
            0 <= i < self.panes.entries@.len() && (#[trigger] self.panes.entries@[i]).1.local_id@
                == local_id
    }

    pub fn maps_local(&self, local_id: &str) -> (r: bool)
        ensures
            r == self.maps(local_id@),
    {
        let mut i: usize = 0;
        while i < self.workspaces.entries.len()
            invariant
                i <= self.workspaces.entries@.len(),
                forall|j: int|
                    0 <= j < i ==> (#[trigger] self.workspaces.entries@[j]).1.local_id@
                        != local_id@,
            decreases self.workspaces.entries@.len() - i,
        {
            if same_text(self.workspaces.entries[i].1.local_id.as_str(), local_id) {
                return true;
            }
            i += 1;
        }
        let mut t: usize = 0;
        while t < self.tabs.entries.len()
            invariant
                t <= self.tabs.entries@.len(),
                forall|j: int|
                    0 <= j < t ==> (#[trigger] self.tabs.entries@[j]).1.local_id@ != local_id@,
            decreases self.tabs.entries@.len() - t,
        {
            if same_text(self.tabs.entries[t].1.local_id.as_str(), local_id) {
                return true;
            }
            t += 1;
        }
        let mut p: usize = 0;
        while p < self.panes.entries.len()
            invariant
                p <= self.panes.entries@.len(),
                forall|j: int|
                    0 <= j < p ==> (#[trigger] self.panes.entries@[j]).1.local_id@ != local_id@,
            decreases self.panes.entries@.len() - p,
        {
            if same_text(self.panes.entries[p].1.local_id.as_str(), local_id) {
                return true;
            }
            p += 1;
        }
        false
    }
}

// ---------------------------------------------------------------------------
// restoring closed mirrors

/// Does a filter let an id pass? No filter lets every id pass.
pub open spec fn passes(filter: Option<&str>, id: Seq<char>) -> bool {
    match filter {
        Some(f) => f@ == id,
        None => true,
    }
}

pub fn id_passes(filter: Option<&str>, id: &str) -> (r: bool)
    ensures
        r == passes(filter, id@),
{
    match filter {
        Some(f) => same_text(f, id),
        None => true,
    }
}

/// An entry that the user can close.
pub trait Closable {
    spec fn closed_by_user(&self) -> bool;

    fn is_closed_by_user(&self) -> (r: bool)
        ensures
            r == self.closed_by_user(),
    ;
}

impl Closable for WsEntry {
    open spec fn closed_by_user(&self) -> bool {
        self.tombstoned()
    }

    fn is_closed_by_user(&self) -> (r: bool) {
        self.is_tombstoned()
    }
}

impl Closable for PaneEntry {
    open spec fn closed_by_user(&self) -> bool {
        self.tombstoned()
    }

    fn is_closed_by_user(&self) -> (r: bool) {
        self.is_tombstoned()
    }
}

/// The ids whose tombstones a restore lifts.
pub open spec fn restorable<V: Closable>(m: Map<Seq<char>, V>, filter: Option<&str>) -> Set<
    Seq<char>,
> {
    Set::new(|id: Seq<char>| m.contains_key(id) && m[id].closed_by_user() && passes(filter, id))
}

/// Removes the tombstoned entries that pass a filter, and tells how many.
fn lift_tombstones<V: Closable>(map: &mut IdMap<V>, filter: Option<&str>) -> (cleared: usize)
    requires
        old(map).wf(),
    ensures
        final(map).wf(),
        final(map)@ == old(map)@.remove_keys(restorable(old(map)@, filter)),
        cleared == old(map).entries@.len() - final(map).entries@.len(),
{
    let total: usize = map.entries.len();
    let mut i: usize = 0;
    let ghost first = map@;
    let ghost doomed = restorable(map@, filter);
    let ghost mut gone = Set::<Seq<char>>::empty();
    assert(first.remove_keys(gone) =~= first);
    while i < map.entries.len()
        invariant
            map.wf(),
            i <= map.entries@.len() <= total,
            total == old(map).entries@.len(),
            first == old(map)@,
            doomed == restorable(first, filter),
            map@ == first.remove_keys(gone),
            gone.subset_of(doomed),
            forall|j: int| 0 <= j < i ==> !doomed.contains(#[trigger] map.id(j)),
        decreases map.entries@.len() - i,
    {
        proof {
            lemma_one_place(*map, i as int);
            assert(first.contains_key(map.id(i as int)));
        }
        let doom: bool = map.entries[i].1.is_closed_by_user() && id_passes(
            filter,
            map.entries[i].0.as_str(),
        );
        if doom {
            let id = map.entries[i].0.clone();
            let ghost before = *map;
            let _ = map.remove(id.as_str());
            proof {
                gone = gone.insert(id@);
                assert(first.remove_keys(gone) =~= before@.remove(id@));
                assert forall|j: int| 0 <= j < i implies !doomed.contains(
                    #[trigger] map.id(j),
                ) by {
                    assert(map.id(j) == before.id(j));
                }
            }
        } else {
            i += 1;
        }
    }
    proof {
        assert forall|id: Seq<char>| #[trigger] map@.contains_key(id) implies !doomed.contains(
            id,
        ) by {
            let k = map.place(id);
            assert(map.id(k) == id);
        }
        assert(first.remove_keys(doomed) =~= map@);
    }
    total - map.entries.len()
}

/// Is a state another one in which the matching tombstones are lifted, and
/// nothing else has changed?
pub open spec fn is_restored(before: HostState, after: HostState, filter: Option<&str>) -> bool {
    &&& after.workspaces@ == before.workspaces@.remove_keys(restorable(before.workspaces@, filter))
    &&& after.panes@ == before.panes@.remove_keys(restorable(before.panes@, filter))
    &&& after.tabs == before.tabs
    &&& after.shared_workspace == before.shared_workspace
    &&& after.pending_default_tab == before.pending_default_tab
    &&& after.prev_remote_ids == before.prev_remote_ids
    &&& after.ratios == before.ratios
}

impl HostState {
    /// How many workspaces and panes are mapped.
    pub open spec fn entry_count(self) -> nat {
        self.workspaces.entries@.len() + self.panes.entries@.len()
    }

    /// Un-tombstones mirrors that the user closed, all of them or the one with
    /// the given id: without their entries the next pass makes them again.
    pub fn restore(&mut self, filter: Option<&str>) -> (cleared: usize)
        requires
            old(self).wf(),
            old(self).entry_count() <= usize::MAX,
        ensures
            final(self).wf(),
            is_restored(*old(self), *final(self), filter),
            forall|id: Seq<char>|
                (filter matches Some(f) && f@ != id) ==> (#[trigger] final(self).panes@.contains_key(id) <==> old(self).panes@.contains_key(id)),
            forall|id: Seq<char>|
                (filter matches Some(f) && f@ != id) ==> (#[trigger] final(self).workspaces@.contains_key(id) <==> old(self).workspaces@.contains_key(id)),
            cleared == old(self).entry_count() - final(self).entry_count(),
    {
        let ws = lift_tombstones(&mut self.workspaces, filter);
        let panes = lift_tombstones(&mut self.panes, filter);
        ws + panes
    }
}

/// After a restore without a filter no tombstone is left, and every live
/// mirror is untouched.
pub proof fn law_restore_lifts_every_tombstone<V: Closable>(m: Map<Seq<char>, V>)
    ensures
        ({
            let after = m.remove_keys(restorable(m, None));
            &&& forall|id: Seq<char>|
                #[trigger] after.contains_key(id) <==> m.contains_key(id)
                    && !m[id].closed_by_user()
            &&& forall|id: Seq<char>| #[trigger] after.contains_key(id) ==> after[id] == m[id]
        }),
{
}

/// Restoring twice changes nothing the second time.
pub proof fn law_restore_is_idempotent<V: Closable>(
    m: Map<Seq<char>, V>,
    filter: Option<&str>,
)
    ensures
        ({
            let after = m.remove_keys(restorable(m, filter));
            after.remove_keys(restorable(after, filter)) == after
        }),
{
    let after = m.remove_keys(restorable(m, filter));
    assert(after.remove_keys(restorable(after, filter)) =~= after);
}

// ---------------------------------------------------------------------------
// files beside the map

/// Where the marker of a hidden host is.
pub open spec fn hidden_file(state_dir: Seq<char>, host: Seq<char>) -> Seq<char> {
    joined(state_dir, host + ".hidden"@)
}

/// Where the id map of a host is.
pub open spec fn map_file(state_dir: Seq<char>, host: Seq<char>) -> Seq<char> {
    joined(state_dir, host + "-map.json"@)
}

/// Where the notice for a pane is.
pub open spec fn hint_file(state_dir: Seq<char>, local_pane_id: Seq<char>) -> Seq<char> {
    joined(state_dir, ".hint-"@ + sane(local_pane_id))
}

/// The marker of a host whose mirrors are off the sidebar. It is a file of its
/// own: the map file is rewritten by whoever saves last.
pub fn hidden_path(state_dir: &str, host: &str) -> (path: String)
    ensures
        path@ == hidden_file(state_dir@, host@),
{
    let mut name = host.to_owned();
    name.append(".hidden");
    join_path(state_dir, name.as_str())
}

/// The id map of a host.
pub fn state_path(state_dir: &str, host: &str) -> (path: String)
    ensures
        path@ == map_file(state_dir@, host@),
{
    let mut name = host.to_owned();
    name.append("-map.json");
    join_path(state_dir, name.as_str())
}

/// The notice for one mirror pane, addressed by its local id.
pub fn pane_hint_path(state_dir: &str, local_pane_id: &str) -> (path: String)
    ensures
        path@ == hint_file(state_dir@, local_pane_id@),
{
    let mut name = ".hint-".to_owned();
    name.append(sane_component(local_pane_id).as_str());
    join_path(state_dir, name.as_str())
}

/// How a file operation ended.
#[derive(Clone, Copy, PartialEq, Eq, Structural)]
pub enum FileOutcome {
    Done,
    NotFound,
    Failed,
}

/// Has a host been hidden, or shown again? A marker that is not there is as
/// good as removed; anything else that fails is an error.
pub fn set_hidden(hidden: bool, outcome: FileOutcome) -> (ok: bool)
    ensures
        ok == (outcome == FileOutcome::Done || (!hidden && outcome == FileOutcome::NotFound)),
{
    match outcome {
        FileOutcome::Done => true,
        FileOutcome::NotFound => !hidden,
        FileOutcome::Failed => false,
    }
}

/// For how many seconds a notice is fresh.
pub const HINT_SECS: u64 = 30;

/// What a pane shows of the notice that was left for it: a fresh one, without
/// the white space around it, unless that is all it holds.
pub open spec fn hint_shown(msg: Seq<char>, age_secs: Option<u64>) -> Option<Seq<char>> {
    if trim(msg).len() > 0 && (age_secs matches Some(age) && age < HINT_SECS) {
        Some(trim(msg))
    } else {
        None
    }
}

/// What becomes of the notice of a pane: what the pane shows, and whether the
/// file is consumed. A file that was read is consumed in any case: a notice that
/// is stale or blank is not left for later.
pub open spec fn hint_taken(found: Option<Seq<char>>, age_secs: Option<u64>) -> (
    Option<Seq<char>>,
    bool,
) {
    match found {
        Some(msg) => (hint_shown(msg, age_secs), true),
        None => (None, false),
    }
}

/// What becomes of the notice of a pane.
pub struct TakenHint {
    pub shown: Option<String>,
    pub consumed: bool,
}

/// Takes the notice of a pane, given what its file holds, if it can be read,
/// and how old that is, if that is known.
pub fn take_pane_hint(found: Option<&str>, age_secs: Option<u64>) -> (taken: TakenHint)
    ensures
        (opt_text(taken.shown), taken.consumed) == hint_taken(
            match found {
                Some(msg) => Some(msg@),
                None => None,
            },
            age_secs,
        ),
{
    let msg = match found {
        Some(msg) => msg,
        None => return TakenHint { shown: None, consumed: false },
    };
    let fresh: bool = match age_secs {
        Some(age) => age < HINT_SECS,
        None => false,
    };
    let chars = chars_of(msg);
    let trimmed = trim_chars(chars.as_slice());
    let shown = if fresh && trimmed.len() > 0 {
        Some(string_of(trimmed.as_slice()))
    } else {
        None
    };
    TakenHint { shown, consumed: true }
}

} // verus!
