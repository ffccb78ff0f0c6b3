//! What paths and the places of files promise.

use crate::clock::{is_timestamp, iso};
use crate::env::{names_socket, state_home};
use crate::file_laws::lemma_first_at;
use crate::paths::{is_dotted, is_rooted, joined, path_names, same_path};
use crate::socket::no_socket_message;
use crate::state::{hidden_file, hint_file, map_file};
use crate::text::first_at;
use crate::util::{
    default_config_path, distinct_paths, has_path, home_path, is_earliest, is_log_line,
    law_sane_is_one_component, log_text, named_candidates, opt_text, sane, streamer_pid_file,
};
use crate::width::columns;
use vstd::prelude::*;

verus! {

// ---------------------------------------------------------------------------
// paths

/// A path below another one stands behind it and one slash; an absolute path
/// stands for itself.
pub proof fn law_a_path_stands_below_its_base(base: Seq<char>, part: Seq<char>)
    ensures
        joined(base, seq!['/'] + part) == seq!['/'] + part,
        part.len() == 0 || part[0] != '/' ==> {
            &&& joined(Seq::empty(), part) == part
            &&& joined(base + seq!['/'], part) == base + seq!['/'] + part
            &&& base.len() > 0 && base.last() != '/' ==> joined(base, part) == base + seq!['/']
                + part
        },
{
    assert((seq!['/'] + part)[0] == '/');
    assert((base + seq!['/']).last() == '/');
    assert(Seq::<char>::empty() + part =~= part);
    assert(base.push('/') + part =~= base + seq!['/'] + part);
}

/// The names on a path are what stands between its slashes, in order, but for
/// what is empty and for single dots.
pub proof fn law_names_stand_between_slashes(name: Seq<char>, rest: Seq<char>)
    requires
        forall|i: int| 0 <= i < name.len() ==> name[i] != '/',
    ensures
        name.len() == 0 || name == seq!['.'] ==> {
            &&& path_names(name) == Seq::<Seq<char>>::empty()
            &&& path_names(name + seq!['/'] + rest) == path_names(rest)
        },
        name.len() > 0 && name != seq!['.'] ==> {
            &&& path_names(name) == seq![name]
            &&& path_names(name + seq!['/'] + rest) == seq![name] + path_names(rest)
        },
{
    let p = name + seq!['/'] + rest;
    let n = name.len() as int;
    lemma_first_at(p, '/', 0);
    lemma_first_at(name, '/', 0);
    assert(p[n] == '/');
    assert forall|i: int| 0 <= i < n implies p[i] != '/' by {
        assert(p[i] == name[i]);
    }
    assert(first_at(p, '/', 0) == n);
    assert(first_at(name, '/', 0) == n);
    assert(p.take(n) =~= name);
    assert(name.take(n) =~= name);
    assert(p.skip(n + 1) =~= rest);
    assert(seq![name] + Seq::<Seq<char>>::empty() =~= seq![name]);
}

/// Two paths are the same just if they have the same names in the same order,
/// and both or neither begin with a slash, and both or neither with a dot that
/// stands alone.
pub proof fn law_paths_are_told_by_their_names(a: Seq<char>, b: Seq<char>)
    ensures
        same_path(a, b) <==> path_names(a) == path_names(b) && ((a.len() > 0 && a[0] == '/') <==> (
        b.len() > 0 && b[0] == '/')) && ((a == seq!['.'] || (a.len() > 1 && a[0] == '.' && a[1]
            == '/')) <==> (b == seq!['.'] || (b.len() > 1 && b[0] == '.' && b[1] == '/'))),
        same_path(a, a),
{
    if a.len() == 1 && a[0] == '.' {
        assert(a =~= seq!['.']);
    }
    if b.len() == 1 && b[0] == '.' {
        assert(b =~= seq!['.']);
    }
    assert(is_rooted(a) == (a.len() > 0 && a[0] == '/'));
    assert(is_dotted(a) == (a == seq!['.'] || (a.len() > 1 && a[0] == '.' && a[1] == '/')));
    assert(is_dotted(b) == (b == seq!['.'] || (b.len() > 1 && b[0] == '.' && b[1] == '/')));
}

// ---------------------------------------------------------------------------
// directories

/// Where things are kept below a home directory that does not end with a slash,
/// and where its home is for a user without one.
pub proof fn law_directories_below_the_home(home: Seq<char>)
    requires
        home.len() > 0,
        home.last() != '/',
    ensures
        state_home(home) == home + "/.local/state/herdr-mirror"@,
        default_config_path(home) == home + "/.config/herdr-mirror"@,
        named_candidates(None, home) == seq![
            home + "/.config/herdr/plugins/config/mirror"@,
            home + "/.config/herdr-mirror"@,
        ],
        home_path(None) == "/"@,
        forall|dir: String| home_path(Some(dir)) == #[trigger] dir@,
{
    reveal_strlit("/.local/state/herdr-mirror");
    reveal_strlit("/.config/herdr-mirror");
    reveal_strlit("/.config/herdr/plugins/config/mirror");
    reveal_strlit(".local");
    reveal_strlit("state");
    reveal_strlit("herdr-mirror");
    reveal_strlit(".config");
    reveal_strlit(".config/herdr/plugins/config/mirror");
    assert(".local"@[0] == '.' && "state"@[0] == 's' && "herdr-mirror"@[0] == 'h' && ".config"@[0]
        == '.' && ".config/herdr/plugins/config/mirror"@[0] == '.');
    let local = joined(home, ".local"@);
    assert(local.last() == 'l');
    let state = joined(local, "state"@);
    assert(state.last() == 'e');
    assert(state_home(home) =~= home + "/.local/state/herdr-mirror"@);
    let config = joined(home, ".config"@);
    assert(config.last() == 'g');
    assert(default_config_path(home) =~= home + "/.config/herdr-mirror"@);
    assert(joined(home, ".config/herdr/plugins/config/mirror"@) =~= home
        + "/.config/herdr/plugins/config/mirror"@);
}

/// A plugin directory that is named is searched before the others; one that is
/// named by an empty text is none.
pub proof fn law_a_plugin_directory_comes_first(dir: Seq<char>, home: Seq<char>)
    ensures
        dir.len() > 0 ==> named_candidates(Some(dir), home) == seq![dir] + named_candidates(
            None,
            home,
        ),
        dir.len() == 0 ==> named_candidates(Some(dir), home) == named_candidates(None, home),
{
}

/// Of paths, one more is kept behind the others just if none of them is the same
/// path.
pub proof fn law_a_new_path_is_kept(dirs: Seq<Seq<char>>, dir: Seq<char>)
    ensures
        distinct_paths(Seq::empty()) == Seq::<Seq<char>>::empty(),
        (forall|i: int| 0 <= i < dirs.len() ==> !same_path(#[trigger] dirs[i], dir))
            ==> distinct_paths(dirs.push(dir)) == distinct_paths(dirs).push(dir),
        (exists|i: int| 0 <= i < dirs.len() && same_path(#[trigger] dirs[i], dir))
            ==> distinct_paths(dirs.push(dir)) == distinct_paths(dirs),
{
    let all = dirs.push(dir);
    let kept = distinct_paths(dirs);
    assert(all.drop_last() =~= dirs);
    lemma_kept_are_dirs(dirs);
    if has_path(kept, dir) {
        let k = choose|k: int| 0 <= k < kept.len() && same_path(#[trigger] kept[k], dir);
        assert(dirs.contains(kept[k]));
        let i = choose|i: int| 0 <= i < dirs.len() && dirs[i] == kept[k];
        assert(same_path(dirs[i], dir));
    }
    if exists|i: int| 0 <= i < dirs.len() && same_path(#[trigger] dirs[i], dir) {
        let i = choose|i: int| 0 <= i < dirs.len() && same_path(#[trigger] dirs[i], dir);
        crate::util::law_each_path_is_searched_once(dirs);
        assert(has_path(kept, dirs[i]));
        let k = choose|k: int| 0 <= k < kept.len() && same_path(#[trigger] kept[k], dirs[i]);
        assert(same_path(kept[k], dir));
        assert(has_path(kept, dir));
    }
}

proof fn lemma_kept_are_dirs(dirs: Seq<Seq<char>>)
    ensures
        forall|k: int|
            0 <= k < distinct_paths(dirs).len() ==> dirs.contains(
                #[trigger] distinct_paths(dirs)[k],
            ),
    decreases dirs.len(),
{
    if dirs.len() > 0 {
        let before = dirs.drop_last();
        lemma_kept_are_dirs(before);
        let kept = distinct_paths(before);
        let all = distinct_paths(dirs);
        assert forall|k: int| 0 <= k < all.len() implies dirs.contains(#[trigger] all[k]) by {
            if k < kept.len() {
                assert(before.contains(kept[k]));
                let i = choose|i: int| 0 <= i < before.len() && before[i] == kept[k];
                assert(dirs[i] == all[k]);
            } else {
                assert(dirs[dirs.len() - 1] == all[k]);
            }
        }
    }
}

// ---------------------------------------------------------------------------
// files

/// The files of a host and of a pane stand right in the state directory, under
/// the name of the host and under the id of the pane as a file name.
pub proof fn law_the_names_of_files(state_dir: Seq<char>, host: Seq<char>, pane: Seq<char>)
    requires
        state_dir.len() > 0,
        state_dir.last() != '/',
        host.len() > 0,
        host[0] != '/',
    ensures
        hidden_file(state_dir, host) == state_dir + "/"@ + host + ".hidden"@,
        map_file(state_dir, host) == state_dir + "/"@ + host + "-map.json"@,
        hint_file(state_dir, pane) == state_dir + "/.hint-"@ + sane(pane),
{
    reveal_strlit("/");
    reveal_strlit("/.hint-");
    reveal_strlit(".hint-");
    assert((host + ".hidden"@)[0] == host[0]);
    assert((host + "-map.json"@)[0] == host[0]);
    assert((".hint-"@ + sane(pane))[0] == '.');
    assert(hidden_file(state_dir, host) =~= state_dir + "/"@ + host + ".hidden"@);
    assert(map_file(state_dir, host) =~= state_dir + "/"@ + host + "-map.json"@);
    assert(hint_file(state_dir, pane) =~= state_dir + "/.hint-"@ + sane(pane));
}

/// Streamers have pidfiles of their own: only those whose targets are the same
/// as file names share one. A name holds both targets.
pub proof fn law_each_streamer_has_its_own_pidfile(
    ssh1: Seq<char>,
    pane1: Seq<char>,
    ssh2: Seq<char>,
    pane2: Seq<char>,
)
    ensures
        streamer_pid_file(ssh1, pane1) == sane(ssh1) + "--"@ + sane(pane1) + ".pid"@,
        streamer_pid_file(ssh1, pane1) == streamer_pid_file(ssh2, pane2) ==> sane(ssh1) == sane(
            ssh2,
        ) && sane(pane1) == sane(pane2),
{
    reveal_strlit("--");
    reveal_strlit(".pid");
    let s = streamer_pid_file(ssh1, pane1);
    let t = streamer_pid_file(ssh2, pane2);
    if s == t {
        let a = sane(ssh1);
        let b = sane(ssh2);
        lemma_no_dash(ssh1);
        lemma_no_dash(ssh2);
        assert(s[a.len() as int] == '-');
        assert(t[b.len() as int] == '-');
        if a.len() < b.len() {
            assert(t[a.len() as int] == b[a.len() as int]);
        } else if b.len() < a.len() {
            assert(s[b.len() as int] == a[b.len() as int]);
        }
        assert(a =~= s.take(a.len() as int));
        assert(b =~= t.take(b.len() as int));
        let n = a.len() as int + 2;
        assert(s.len() == n + sane(pane1).len() + 4);
        assert(t.len() == n + sane(pane2).len() + 4);
        assert(sane(pane1) =~= s.subrange(n, s.len() - 4));
        assert(sane(pane2) =~= t.subrange(n, t.len() - 4));
    }
}

proof fn lemma_no_dash(s: Seq<char>)
    ensures
        forall|i: int| 0 <= i < s.len() ==> #[trigger] sane(s)[i] != '-',
        sane(s).len() == s.len(),
{
    law_sane_is_one_component(s);
}

/// A log line is a timestamp, a space, the message and a line feed.
pub proof fn law_a_log_line(stamp: Seq<char>, msg: Seq<char>)
    ensures
        log_text(stamp, msg) == stamp + seq![' '] + msg + seq!['\n'],
{
    reveal_strlit(" ");
    reveal_strlit("\n");
    assert(" "@ =~= seq![' ']);
    assert("\n"@ =~= seq!['\n']);
}

/// What is logged begins with the timestamp of a moment and ends with the
/// message on its line.
pub proof fn law_what_is_logged_is_dated(line: Seq<char>, msg: Seq<char>) -> (moment: (u64, u32))
    requires
        is_log_line(line, msg),
    ensures
        moment.1 < 1000,
        line == iso(moment.0 as nat, moment.1 as nat) + seq![' '] + msg + seq!['\n'],
{
    let stamp = choose|stamp: Seq<char>| #[trigger]
        is_timestamp(stamp) && line == log_text(stamp, msg);
    law_a_log_line(stamp, msg);
    choose|secs: u64, millis: u32| millis < 1000 && stamp == #[trigger] iso(
        secs as nat,
        millis as nat,
    )
}

// ---------------------------------------------------------------------------
// variables

/// A variable names a socket just if it is set and not empty.
pub proof fn law_an_empty_variable_names_no_socket(var: String)
    ensures
        names_socket(Some(var)) <==> var@.len() > 0,
        !names_socket(None),
        opt_text(Some(var)) == Some(var@),
        opt_text(None) is None,
        no_socket_message()
            == "cannot resolve local herdr socket (HERDR_SOCKET_PATH unset, herdr status gave none)"@,
{
}

// ---------------------------------------------------------------------------
// deadlines and widths

/// The earliest deadline is one of those that are set, and none of them is
/// before it; there is none just if none is set. It does not depend on the order
/// in which they stand.
pub proof fn law_the_earliest_deadline(deadlines: Seq<Option<u64>>, at: Option<u64>, i: int)
    requires
        is_earliest(deadlines, at),
        0 <= i < deadlines.len(),
    ensures
        deadlines[i] matches Some(d) ==> at is Some && at->0 <= d,
        at is Some ==> exists|j: int| 0 <= j < deadlines.len() && #[trigger] deadlines[j] == at,
        at is None ==> forall|j: int| 0 <= j < deadlines.len() ==> #[trigger] deadlines[j] is None,
{
    if at is None {
        assert(deadlines[i] is None);
    } else {
        assert(deadlines.contains(at));
    }
}

/// A character takes up as many columns as the table says, but at least one.
pub proof fn law_a_character_takes_up_a_column(w: usize)
    ensures
        columns(None) == 1,
        columns(Some(0)) == 1,
        w >= 1 ==> columns(Some(w)) == w,
{
}

} // verus!
