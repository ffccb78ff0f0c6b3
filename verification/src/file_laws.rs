//! What the files beside the id map promise: each has a path of its own, and a
//! notice goes to one pane, once.

use crate::paths::{path_names, same_path};
use crate::state::{hidden_file, hint_file, hint_taken, map_file, HINT_SECS};
use crate::text::{first_at, trim};
use crate::util::{law_sane_is_one_component, sane};
use vstd::prelude::*;

verus! {

// ---------------------------------------------------------------------------
// paths

/// Where the first such character is: none stands before it.
pub proof fn lemma_first_at(s: Seq<char>, c: char, from: int)
    requires
        0 <= from <= s.len(),
    ensures
        from <= first_at(s, c, from) <= s.len(),
        first_at(s, c, from) < s.len() ==> s[first_at(s, c, from)] == c,
        forall|j: int| from <= j < first_at(s, c, from) ==> s[j] != c,
    decreases s.len() - from,
{
    if from < s.len() && s[from] != c {
        lemma_first_at(s, c, from + 1);
    }
}

/// The last name of a path ends as the path does.
proof fn lemma_last_name_ends_alike(p: Seq<char>)
    requires
        p.len() >= 2,
        p[p.len() - 1] != '/',
        p[p.len() - 2] != '/',
    ensures
        path_names(p).len() > 0,
        path_names(p).last().len() >= 2,
        path_names(p).last()[path_names(p).last().len() - 2] == p[p.len() - 2],
    decreases p.len(),
{
    lemma_first_at(p, '/', 0);
    let k = first_at(p, '/', 0);
    if k >= p.len() {
        assert(p.take(k) =~= p);
        assert(p.len() != seq!['.'].len());
        assert(path_names(p) =~= seq![p]);
    } else {
        let rest = p.skip(k + 1);
        lemma_last_name_ends_alike(rest);
        let names = path_names(rest);
        assert(path_names(p).last() == names.last());
    }
}

/// The last name of a path that ends with a name is that name.
proof fn lemma_last_name_is(pre: Seq<char>, name: Seq<char>)
    requires
        pre.len() == 0 || pre.last() == '/',
        name.len() >= 2,
        forall|i: int| 0 <= i < name.len() ==> name[i] != '/',
    ensures
        path_names(pre + name).len() > 0,
        path_names(pre + name).last() == name,
    decreases pre.len(),
{
    let p = pre + name;
    lemma_first_at(p, '/', 0);
    let k = first_at(p, '/', 0);
    if pre.len() == 0 {
        assert(p =~= name);
        assert(p.take(k) =~= name);
        assert(name.len() != seq!['.'].len());
        assert(path_names(p) =~= seq![name]);
    } else {
        assert(p[pre.len() - 1] == '/');
        assert(k < pre.len());
        let rest = pre.skip(k + 1);
        assert(p.skip(k + 1) =~= rest + name);
        if rest.len() > 0 {
            assert(rest.last() == pre.last());
        }
        lemma_last_name_is(rest, name);
        assert(path_names(p).last() == path_names(rest + name).last());
    }
}

/// The marker of a hidden host is never the id map of a host, be it the same
/// host or another one: no rewrite of a map touches a marker.
pub proof fn law_a_marker_is_no_map(state_dir: Seq<char>, host: Seq<char>, other: Seq<char>)
    ensures
        hidden_file(state_dir, host) != map_file(state_dir, other),
        !same_path(hidden_file(state_dir, host), map_file(state_dir, other)),
{
    reveal_strlit(".hidden");
    reveal_strlit("-map.json");
    let a = host + ".hidden"@;
    let b = other + "-map.json"@;
    let p = hidden_file(state_dir, host);
    let q = map_file(state_dir, other);
    assert(a[a.len() - 1] == 'n' && a[a.len() - 2] == 'e');
    assert(b[b.len() - 1] == 'n' && b[b.len() - 2] == 'o');
    assert(p[p.len() - 1] == 'n' && p[p.len() - 2] == 'e');
    assert(q[q.len() - 1] == 'n' && q[q.len() - 2] == 'o');
    lemma_last_name_ends_alike(p);
    lemma_last_name_ends_alike(q);
}

/// Files by their paths, each with what it holds, after the map of a host was
/// written.
pub open spec fn rewritten(
    files: Map<Seq<char>, Seq<char>>,
    state_dir: Seq<char>,
    host: Seq<char>,
    text: Seq<char>,
) -> Map<Seq<char>, Seq<char>> {
    files.insert(map_file(state_dir, host), text)
}

/// A host that is hidden stays hidden, and one that is shown stays shown,
/// whoever rewrites the map of whichever host.
pub proof fn law_a_marker_survives_every_rewrite(
    files: Map<Seq<char>, Seq<char>>,
    state_dir: Seq<char>,
    host: Seq<char>,
    other: Seq<char>,
    text: Seq<char>,
)
    ensures
        rewritten(files, state_dir, other, text).contains_key(hidden_file(state_dir, host))
            == files.contains_key(hidden_file(state_dir, host)),
{
    law_a_marker_is_no_map(state_dir, host, other);
}

/// Two panes whose ids differ as file names have notices of their own.
pub proof fn law_each_pane_has_its_own_notice(state_dir: Seq<char>, a: Seq<char>, b: Seq<char>)
    requires
        sane(a) != sane(b),
    ensures
        hint_file(state_dir, a) != hint_file(state_dir, b),
        !same_path(hint_file(state_dir, a), hint_file(state_dir, b)),
{
    lemma_hint_name(state_dir, a);
    lemma_hint_name(state_dir, b);
    let x = ".hint-"@ + sane(a);
    let y = ".hint-"@ + sane(b);
    if x == y {
        let n = ".hint-"@.len() as int;
        assert(x.skip(n) =~= sane(a));
        assert(y.skip(n) =~= sane(b));
    }
}

/// The notice of a pane is one file, right in the state directory.
proof fn lemma_hint_name(state_dir: Seq<char>, id: Seq<char>)
    ensures
        path_names(hint_file(state_dir, id)).last() == ".hint-"@ + sane(id),
{
    reveal_strlit(".hint-");
    law_sane_is_one_component(id);
    let name = ".hint-"@ + sane(id);
    assert forall|i: int| 0 <= i < name.len() implies name[i] != '/' by {
        if i >= 6 {
            assert(name[i] == sane(id)[i - 6]);
        }
    }
    let pre = if state_dir.len() == 0 || state_dir.last() == '/' {
        state_dir
    } else {
        state_dir.push('/')
    };
    assert(name[0] == '.');
    assert(hint_file(state_dir, id) =~= pre + name);
    lemma_last_name_is(pre, name);
}

// ---------------------------------------------------------------------------
// notices

/// A notice: what it says, and the second in which it was left.
pub struct Notice {
    pub msg: Seq<char>,
    pub at: u64,
}

/// How old a notice is: not known where the clock was set back since.
pub open spec fn age_of(notice: Notice, now: u64) -> Option<u64> {
    if notice.at <= now {
        Some((now - notice.at) as u64)
    } else {
        None
    }
}

/// Notices by their paths, after one was left for a pane.
pub open spec fn after_leaving(
    notices: Map<Seq<char>, Notice>,
    state_dir: Seq<char>,
    pane: Seq<char>,
    notice: Notice,
) -> Map<Seq<char>, Notice> {
    notices.insert(hint_file(state_dir, pane), notice)
}

/// What a pane takes: what its file holds and how old that is decides.
pub open spec fn taken_by(
    notices: Map<Seq<char>, Notice>,
    state_dir: Seq<char>,
    pane: Seq<char>,
    now: u64,
) -> (Option<Seq<char>>, bool) {
    let path = hint_file(state_dir, pane);
    if notices.contains_key(path) {
        hint_taken(Some(notices[path].msg), age_of(notices[path], now))
    } else {
        hint_taken(None, None)
    }
}

/// Notices by their paths, after a pane took its own: what is consumed is gone.
pub open spec fn after_taking(
    notices: Map<Seq<char>, Notice>,
    state_dir: Seq<char>,
    pane: Seq<char>,
    now: u64,
) -> Map<Seq<char>, Notice> {
    if taken_by(notices, state_dir, pane, now).1 {
        notices.remove(hint_file(state_dir, pane))
    } else {
        notices
    }
}

/// A notice that was left for a pane is shown to it if it is taken within half
/// a minute and says something; else it is not shown.
pub proof fn law_a_fresh_notice_is_shown(
    notices: Map<Seq<char>, Notice>,
    state_dir: Seq<char>,
    pane: Seq<char>,
    notice: Notice,
    now: u64,
)
    ensures
        ({
            let left = after_leaving(notices, state_dir, pane, notice);
            let fresh = notice.at <= now && now - notice.at < HINT_SECS;
            taken_by(left, state_dir, pane, now).0 == if fresh && trim(notice.msg).len() > 0 {
                Some(trim(notice.msg))
            } else {
                None
            }
        }),
{
}

/// A notice is taken once: afterwards its file is gone, a stale or a blank one
/// too, and a second take finds nothing and changes nothing.
pub proof fn law_a_notice_is_taken_once(
    notices: Map<Seq<char>, Notice>,
    state_dir: Seq<char>,
    pane: Seq<char>,
    now: u64,
    later: u64,
)
    ensures
        ({
            let after = after_taking(notices, state_dir, pane, now);
            &&& !after.contains_key(hint_file(state_dir, pane))
            &&& taken_by(after, state_dir, pane, later).0 is None
            &&& after_taking(after, state_dir, pane, later) == after
        }),
{
}

/// A notice goes to one pane: another pane neither sees it nor consumes it, and
/// what is left for the one changes nothing for the other.
pub proof fn law_a_notice_goes_to_one_pane(
    notices: Map<Seq<char>, Notice>,
    state_dir: Seq<char>,
    pane: Seq<char>,
    other: Seq<char>,
    notice: Notice,
    now: u64,
    later: u64,
)
    requires
        sane(pane) != sane(other),
    ensures
        ({
            let left = after_leaving(notices, state_dir, pane, notice);
            let after = after_taking(left, state_dir, other, now);
            &&& taken_by(left, state_dir, other, now) == taken_by(notices, state_dir, other, now)
            &&& after.contains_key(hint_file(state_dir, pane))
            &&& after[hint_file(state_dir, pane)] == notice
            &&& taken_by(after, state_dir, pane, later) == taken_by(left, state_dir, pane, later)
        }),
{
    law_each_pane_has_its_own_notice(state_dir, pane, other);
}

} // verus!
