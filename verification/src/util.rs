//! Shared plumbing: errors, path resolution, log lines, pidfiles, deadlines.

use crate::clock::{is_timestamp, now_iso};
use crate::paths::{join_path, joined, paths_equal, same_path};
use crate::text::{
    chars_of, decimal, is_ascii_alphanumeric, is_ascii_alphanumeric_char, parse_i32, push_decimal, signed_value, texts,
    trim, trim_chars,
};
use vstd::prelude::*;

verus! {

// ---------------------------------------------------------------------------
// errors

/// An error with a message for the user.
#[derive(Debug, Clone)]
pub struct MirrorError {
    pub message: String,
}

/// An error with a message.
pub fn err(msg: &str) -> (e: MirrorError)
    ensures
        e.message@ == msg@,
{
    MirrorError { message: msg.to_owned() }
}

// ---------------------------------------------------------------------------
// directories

/// The home directory, given the variable that names it.
pub fn home_dir(var: Option<String>) -> (home: String)
    ensures
        home@ == home_path(var),
{
    match var {
        Some(dir) => dir,
        None => "/".to_owned(),
    }
}

pub open spec fn home_path(var: Option<String>) -> Seq<char> {
    match var {
        Some(dir) => dir@,
        None => "/"@,
    }
}

/// The canonical config directory: the one path that both plugin actions and
/// shell invocations can always reach.
pub open spec fn default_config_path(home: Seq<char>) -> Seq<char> {
    joined(joined(home, ".config"@), "herdr-mirror"@)
}

pub fn default_config_dir(home: &str) -> (dir: String)
    ensures
        dir@ == default_config_path(home@),
{
    join_path(join_path(home, ".config").as_str(), "herdr-mirror")
}

/// Where plugins keep their configuration by convention.
pub open spec fn plugin_config_path(home: Seq<char>) -> Seq<char> {
    joined(home, ".config/herdr/plugins/config/mirror"@)
}

/// The config directories, most specific first, as they are named.
pub open spec fn named_candidates(plugin_dir: Option<Seq<char>>, home: Seq<char>) -> Seq<
    Seq<char>,
> {
    let fixed = seq![plugin_config_path(home), default_config_path(home)];
    match plugin_dir {
        Some(dir) => if dir.len() > 0 {
            seq![dir] + fixed
        } else {
            fixed
        },
        None => fixed,
    }
}

pub open spec fn has_path(dirs: Seq<Seq<char>>, dir: Seq<char>) -> bool {
    exists|i: int| 0 <= i < dirs.len() && same_path(#[trigger] dirs[i], dir)
}

/// A list of paths without those that an earlier one already names.
pub open spec fn distinct_paths(dirs: Seq<Seq<char>>) -> Seq<Seq<char>>
    decreases dirs.len(),
{
    if dirs.len() == 0 {
        dirs
    } else {
        let before = distinct_paths(dirs.drop_last());
        if has_path(before, dirs.last()) {
            before
        } else {
            before.push(dirs.last())
        }
    }
}

fn contains_path(dirs: &Vec<String>, dir: &str) -> (r: bool)
    ensures
        r == has_path(texts(dirs@), dir@),
{
    let mut i: usize = 0;
    while i < dirs.len()
        invariant
            i <= dirs@.len(),
            forall|j: int| 0 <= j < i ==> !same_path(#[trigger] texts(dirs@)[j], dir@),
        decreases dirs@.len() - i,
    {
        if paths_equal(dirs[i].as_str(), dir) {
            assert(same_path(texts(dirs@)[i as int], dir@));
            return true;
        }
        i += 1;
    }
    false
}

fn add_path(dirs: &mut Vec<String>, dir: String)
    ensures
        texts(final(dirs)@) == if has_path(texts(old(dirs)@), dir@) {
            texts(old(dirs)@)
        } else {
            texts(old(dirs)@).push(dir@)
        },
{
    if !contains_path(dirs, dir.as_str()) {
        dirs.push(dir);
        assert(texts(dirs@) =~= texts(old(dirs)@).push(dir@));
    }
}

pub open spec fn opt_text(s: Option<String>) -> Option<Seq<char>> {
    match s {
        Some(text) => Some(text@),
        None => None,
    }
}

/// The config directories to search, most specific first. The plugin directory
/// is searched whether or not a plugin action runs, so that a shell and an
/// action agree.
pub fn config_candidates(plugin_dir: Option<String>, home: &str) -> (dirs: Vec<String>)
    ensures
        texts(dirs@) == distinct_paths(named_candidates(opt_text(plugin_dir), home@)),
{
    let ghost named = named_candidates(opt_text(plugin_dir), home@);
    let ghost plugin = plugin_config_path(home@);
    let ghost fallback = default_config_path(home@);
    let mut dirs: Vec<String> = Vec::new();
    assert(texts(dirs@) =~= Seq::empty());
    proof {
        reveal_with_fuel(distinct_paths, 4);
        let none = Seq::<Seq<char>>::empty();
        assert(seq![plugin, fallback].drop_last() =~= seq![plugin]);
        assert(seq![plugin].drop_last() =~= none);
        if plugin_dir is Some {
            let dir = plugin_dir->0@;
            assert((seq![dir] + seq![plugin, fallback]).drop_last() =~= seq![dir, plugin]);
            assert(seq![dir, plugin].drop_last() =~= seq![dir]);
            assert(seq![dir].drop_last() =~= none);
        }
    }
    match plugin_dir {
        Some(dir) => {
            if !dir.as_str().is_empty() {
                add_path(&mut dirs, dir);
            }
        },
        None => {},
    }
    add_path(&mut dirs, join_path(home, ".config/herdr/plugins/config/mirror"));
    add_path(&mut dirs, default_config_dir(home));
    dirs
}

/// Without those that an earlier path names, each path is still named, and
/// none is named twice.
pub proof fn law_each_path_is_searched_once(dirs: Seq<Seq<char>>)
    ensures
        forall|i: int| 0 <= i < dirs.len() ==> has_path(distinct_paths(dirs), #[trigger] dirs[i]),
        forall|i: int, j: int|
            0 <= i < j < distinct_paths(dirs).len() ==> !same_path(
                #[trigger] distinct_paths(dirs)[i],
                #[trigger] distinct_paths(dirs)[j],
            ),
        dirs.len() > 0 ==> distinct_paths(dirs).len() > 0 && distinct_paths(dirs)[0] == dirs[0],
    decreases dirs.len(),
{
    if dirs.len() > 0 {
        let before = dirs.drop_last();
        let kept = distinct_paths(before);
        let all = distinct_paths(dirs);
        law_each_path_is_searched_once(before);
        assert forall|i: int| 0 <= i < dirs.len() implies has_path(all, #[trigger] dirs[i]) by {
            if i < before.len() {
                assert(has_path(kept, before[i]));
                let k = choose|k: int| 0 <= k < kept.len() && same_path(#[trigger] kept[k], dirs[i]);
                assert(all[k] == kept[k]);
            } else if !has_path(kept, dirs.last()) {
                assert(all[kept.len() as int] == dirs.last());
                assert(same_path(all[kept.len() as int], dirs[i]));
            }
        }
        assert forall|i: int, j: int| 0 <= i < j < all.len() implies !same_path(
            #[trigger] all[i],
            #[trigger] all[j],
        ) by {
            assert(all[i] == kept[i]);
            if j < kept.len() {
                assert(all[j] == kept[j]);
            }
        }
        if before.len() > 0 {
            assert(before[0] == dirs[0]);
            assert(all[0] == kept[0]);
        } else {
            assert(kept =~= Seq::empty());
            assert(!has_path(kept, dirs.last()));
        }
    }
}

/// Both conventional directories are searched whether or not a plugin
/// directory is given: a shell and a plugin action find the same configuration
/// there.
pub proof fn law_the_conventional_paths_are_always_searched(
    plugin_dir: Option<Seq<char>>,
    home: Seq<char>,
)
    ensures
        has_path(distinct_paths(named_candidates(plugin_dir, home)), plugin_config_path(home)),
        has_path(distinct_paths(named_candidates(plugin_dir, home)), default_config_path(home)),
{
    let named = named_candidates(plugin_dir, home);
    law_each_path_is_searched_once(named);
    let n = named.len() as int;
    assert(named[n - 2] == plugin_config_path(home));
    assert(named[n - 1] == default_config_path(home));
}

// ---------------------------------------------------------------------------
// the log

/// A log file, optionally echoed to standard output.
#[derive(Clone)]
pub struct Logger {
    pub file: String,
    pub also_stdout: bool,
}

/// A log line: a timestamp, the message, and a line feed.
pub open spec fn is_log_line(line: Seq<char>, msg: Seq<char>) -> bool {
    exists|stamp: Seq<char>| #[trigger] is_timestamp(stamp) && line == log_text(stamp, msg)
}

pub open spec fn log_text(stamp: Seq<char>, msg: Seq<char>) -> Seq<char> {
    stamp + " "@ + msg + "\n"@
}

/// A log line with a given timestamp.
pub fn log_line(stamp: &str, msg: &str) -> (line: String)
    ensures
        line@ == log_text(stamp@, msg@),
{
    let mut line = stamp.to_owned();
    line.append(" ");
    line.append(msg);
    line.append("\n");
    line
}

impl Logger {
    pub fn new(state_dir: &str, also_stdout: bool) -> (log: Logger)
        ensures
            log.file@ == joined(state_dir@, "daemon.log"@),
            log.also_stdout == also_stdout,
    {
        Logger { file: join_path(state_dir, "daemon.log"), also_stdout }
    }

    /// The line that logs a message now.
    pub fn log(&self, msg: &str) -> (line: String)
        ensures
            is_log_line(line@, msg@),
    {
        let stamp = now_iso();
        log_line(stamp.as_str(), msg)
    }
}

// ---------------------------------------------------------------------------
// pidfiles

/// The process that a pidfile names, if it names one: a number above zero,
/// with white space around it ignored.
pub open spec fn pidfile_process(text: Seq<char>) -> Option<int> {
    match signed_value(trim(text)) {
        Some(pid) => if pid > 0 {
            Some(pid)
        } else {
            None
        },
        None => None,
    }
}

pub fn pidfile_pid(text: &str) -> (pid: Option<i32>)
    ensures
        match pid {
            Some(p) => pidfile_process(text@) == Some(p as int),
            None => pidfile_process(text@) is None,
        },
{
    let chars = chars_of(text);
    let trimmed = trim_chars(chars.as_slice());
    match parse_i32(trimmed.as_slice()) {
        Some(p) => if p > 0 {
            Some(p)
        } else {
            None
        },
        None => None,
    }
}

/// What the pidfile of a process holds.
pub fn pidfile_text(pid: u32) -> (text: String)
    ensures
        text@ == decimal(pid as nat),
{
    let mut text = String::new();
    push_decimal(&mut text, pid as u64);
    assert(text@ =~= decimal(pid as nat));
    text
}

/// A text made fit for a file name: all but ASCII letters and digits become
/// underscores.
pub open spec fn sane(s: Seq<char>) -> Seq<char> {
    s.map_values(|c: char| if is_ascii_alphanumeric_char(c) { c } else { '_' })
}

pub fn sane_component(s: &str) -> (r: String)
    ensures
        r@ == sane(s@),
{
    let chars = chars_of(s);
    let mut r = String::new();
    let mut i: usize = 0;
    while i < chars.len()
        invariant
            i <= chars@.len(),
            chars@ == s@,
            r@ == sane(s@).take(i as int),
        decreases chars@.len() - i,
    {
        let c: char = if is_ascii_alphanumeric(chars[i]) {
            chars[i]
        } else {
            '_'
        };
        r.push(c);
        assert(sane(s@).take(i + 1) =~= sane(s@).take(i as int).push(c));
        i += 1;
    }
    assert(sane(s@).take(i as int) =~= sane(s@));
    r
}

/// A sane text is one path component: no slash, and no dot.
pub proof fn law_sane_is_one_component(s: Seq<char>)
    ensures
        forall|i: int| 0 <= i < s.len() ==> #[trigger] sane(s)[i] != '/' && sane(s)[i] != '.',
        sane(s).len() == s.len(),
{
}

pub open spec fn streamer_pid_file(ssh_target: Seq<char>, pane_target: Seq<char>) -> Seq<char> {
    sane(ssh_target) + "--"@ + sane(pane_target) + ".pid"@
}

/// The pidfile that the streamer of a pane writes at startup.
pub fn streamer_pid_path(state_dir: &str, ssh_target: &str, pane_target: &str) -> (path: String)
    ensures
        path@ == joined(
            joined(state_dir@, "streamer-pids"@),
            streamer_pid_file(ssh_target@, pane_target@),
        ),
{
    let mut name = sane_component(ssh_target);
    name.append("--");
    name.append(sane_component(pane_target).as_str());
    name.append(".pid");
    join_path(join_path(state_dir, "streamer-pids").as_str(), name.as_str())
}

// ---------------------------------------------------------------------------
// deadlines

/// Is this the earliest of the deadlines that are set?
pub open spec fn is_earliest(deadlines: Seq<Option<u64>>, at: Option<u64>) -> bool {
    match at {
        Some(t) => {
            &&& deadlines.contains(Some(t))
            &&& forall|i: int|
                0 <= i < deadlines.len() ==> (#[trigger] deadlines[i] matches Some(d) ==> t <= d)
        },
        None => forall|i: int| 0 <= i < deadlines.len() ==> #[trigger] deadlines[i] is None,
    }
}

/// The earliest deadline that is set; none when none is.
pub fn earliest(deadlines: &[Option<u64>]) -> (at: Option<u64>)
    ensures
        is_earliest(deadlines@, at),
{
    let mut at: Option<u64> = None;
    let mut i: usize = 0;
    while i < deadlines.len()
        invariant
            i <= deadlines@.len(),
            is_earliest(deadlines@.take(i as int), at),
        decreases deadlines@.len() - i,
    {
        let ghost seen = deadlines@.take(i as int);
        let ghost before = at;
        if let Some(d) = deadlines[i] {
            let sooner: bool = match at {
                Some(t) => d < t,
                None => true,
            };
            if sooner {
                at = Some(d);
            }
        }
        proof {
            let next = deadlines@.take(i + 1);
            assert(next =~= seen.push(deadlines@[i as int]));
            assert(next[i as int] == deadlines@[i as int]);
            assert(forall|j: int| 0 <= j < i ==> #[trigger] next[j] == seen[j]);
            if before is Some && at == before {
                let k = choose|k: int| 0 <= k < seen.len() && seen[k] == before;
                assert(next[k] == before);
            }
        }
        i += 1;
    }
    assert(deadlines@.take(i as int) =~= deadlines@);
    at
}

} // verus!
