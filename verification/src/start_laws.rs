//! What starts of the daemon promise: those that race take their turns behind a
//! lock, and at most one of them spawns.

use crate::frame_laws::law_decimal_reads_back;
use crate::text::{
    decimal, is_digit_char, is_white_space_char, signed_value, trim, trim_end, trim_start,
};
use crate::text_laws::law_trim_undoes_padding;
use crate::util::pidfile_process;
use vstd::prelude::*;

verus! {

/// What starts see and change: the pidfile, the processes that are alive, and
/// how many daemons have been spawned.
pub struct Machine {
    pub pidfile: Option<Seq<char>>,
    pub alive: Set<int>,
    pub spawned: nat,
}

/// A turn of a start: the processes that are alive by then, and the one that is
/// spawned if one is.
pub struct Turn {
    pub alive: Set<int>,
    pub child: int,
}

/// Can a process have this number?
pub open spec fn is_pid(pid: int) -> bool {
    1 <= pid <= i32::MAX
}

impl Machine {
    /// The daemon that runs: the process that the pidfile names, if it is alive.
    pub open spec fn running(self) -> Option<int> {
        match self.pidfile {
            Some(text) => match pidfile_process(text) {
                Some(pid) => if self.alive.contains(pid) {
                    Some(pid)
                } else {
                    None
                },
                None => None,
            },
            None => None,
        }
    }

    /// A start that holds the lock: where a daemon runs nothing changes; else
    /// one is spawned, and the pidfile names it.
    pub open spec fn start(self, child: int) -> Machine {
        match self.running() {
            Some(_) => self,
            None => Machine {
                pidfile: Some(decimal(child as nat)),
                alive: self.alive.insert(child),
                spawned: self.spawned + 1,
            },
        }
    }

    /// A start in its turn.
    pub open spec fn take_turn(self, turn: Turn) -> Machine {
        (Machine { alive: turn.alive, ..self }).start(turn.child)
    }
}

/// Starts one after the other.
pub open spec fn after_turns(m: Machine, turns: Seq<Turn>) -> Machine
    decreases turns.len(),
{
    if turns.len() == 0 {
        m
    } else {
        after_turns(m, turns.drop_last()).take_turn(turns.last())
    }
}

/// Does the daemon that runs live on, from each turn to the next?
pub open spec fn daemon_lives(m: Machine, turns: Seq<Turn>) -> bool
    decreases turns.len(),
{
    if turns.len() == 0 {
        true
    } else {
        &&& daemon_lives(m, turns.drop_last())
        &&& after_turns(m, turns.drop_last()).running() matches Some(pid)
            ==> turns.last().alive.contains(pid)
    }
}

proof fn lemma_digits_are_not_trimmed(s: Seq<char>)
    requires
        s.len() > 0,
        is_digit_char(s[0]),
        is_digit_char(s.last()),
    ensures
        trim(s) == s,
{
    assert(!is_white_space_char(s[0]));
    assert(!is_white_space_char(s.last()));
    assert(trim_start(s) == s);
    assert(trim_end(s) == s);
}

/// A pidfile that is written for a process names that process.
pub proof fn law_a_pidfile_reads_back(pid: int)
    requires
        is_pid(pid),
    ensures
        pidfile_process(decimal(pid as nat)) == Some(pid),
{
    let s = decimal(pid as nat);
    law_decimal_reads_back(pid as nat);
    assert(is_digit_char(s[0]));
    assert(is_digit_char(s[s.len() - 1]));
    lemma_digits_are_not_trimmed(s);
    assert(signed_value(s) == Some(pid));
}

/// White space around the number in a pidfile does not count.
pub proof fn law_a_pidfile_may_hold_white_space(before: Seq<char>, pid: int, after: Seq<char>)
    requires
        is_pid(pid),
        forall|i: int| 0 <= i < before.len() ==> is_white_space_char(#[trigger] before[i]),
        forall|i: int| 0 <= i < after.len() ==> is_white_space_char(#[trigger] after[i]),
    ensures
        pidfile_process(before + decimal(pid as nat) + after) == Some(pid),
{
    let s = decimal(pid as nat);
    law_decimal_reads_back(pid as nat);
    assert(is_digit_char(s[0]));
    assert(is_digit_char(s[s.len() - 1]));
    law_trim_undoes_padding(before, s, after);
    assert(signed_value(s) == Some(pid));
}

/// A pidfile names a process just if it holds a number above zero.
pub proof fn law_a_pidfile_names_a_number_above_zero(text: Seq<char>)
    ensures
        signed_value(trim(text)) matches Some(n) ==> pidfile_process(text) == if n > 0 {
            Some(n)
        } else {
            None
        },
        signed_value(trim(text)) is None ==> pidfile_process(text) is None,
{
}

/// A start where a daemon runs spawns nothing and leaves the pidfile; any other
/// spawns one daemon, which is then the one that runs.
pub proof fn law_a_start_spawns_where_none_runs(m: Machine, child: int)
    requires
        is_pid(child),
    ensures
        m.running() is Some ==> m.start(child) == m,
        m.running() is None ==> m.start(child).spawned == m.spawned + 1 && m.start(child).running()
            == Some(child),
{
    law_a_pidfile_reads_back(child);
}

/// However many starts race, at most one of them spawns while the daemon that
/// then runs lives, and none where one runs before. Afterwards one runs.
pub proof fn law_racing_starts_spawn_at_most_one(m: Machine, turns: Seq<Turn>)
    requires
        daemon_lives(m, turns),
        forall|i: int| 0 <= i < turns.len() ==> is_pid((#[trigger] turns[i]).child),
    ensures
        after_turns(m, turns).spawned <= m.spawned + 1,
        turns.len() > 0 ==> after_turns(m, turns).running() is Some,
        m.running() is Some ==> {
            &&& after_turns(m, turns).spawned == m.spawned
            &&& after_turns(m, turns).pidfile == m.pidfile
            &&& after_turns(m, turns).running() == m.running()
        },
    decreases turns.len(),
{
    if turns.len() > 0 {
        let before = turns.drop_last();
        assert forall|i: int| 0 <= i < before.len() implies is_pid((#[trigger] before[i]).child) by {
            assert(before[i] == turns[i]);
        }
        law_racing_starts_spawn_at_most_one(m, before);
        let turn = turns.last();
        assert(is_pid(turns[turns.len() - 1].child));
        let mid = after_turns(m, before);
        law_a_start_spawns_where_none_runs(Machine { alive: turn.alive, ..mid }, turn.child);
    }
}

} // verus!
