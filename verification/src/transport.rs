//! How a host is reached, and how long to wait before it is tried again.

use crate::text::{decimal, push_decimal, starts_with, text_starts_with};
use vstd::prelude::*;

verus! {

// ---------------------------------------------------------------------------
// the remembered transport

/// How the API of a host is reached.
#[derive(Debug, Clone, Copy, PartialEq, Eq, Structural)]
pub enum ApiTransport {
    Auto,
    Socket,
    Exec,
}

/// The streak of fallbacks after a connection over this transport.
pub open spec fn next_streak(last: Option<ApiTransport>, streak: nat) -> nat {
    if last == Some(ApiTransport::Exec) {
        streak + 1
    } else {
        0
    }
}

/// What the next reconnect tries first: a fallback only once it has happened
/// twice running.
pub open spec fn remembered(last: Option<ApiTransport>, streak: nat) -> Option<ApiTransport> {
    if last == Some(ApiTransport::Exec) && next_streak(last, streak) < 2 {
        None
    } else {
        last
    }
}

/// Which transport the next reconnect should try first. A probe fails for
/// transient reasons too, so one fallback is not remembered.
pub fn remember_transport(last: Option<ApiTransport>, exec_streak: &mut u32) -> (hint: Option<
    ApiTransport,
>)
    requires
        last == Some(ApiTransport::Exec) ==> *old(exec_streak) < u32::MAX,
    ensures
        *final(exec_streak) == next_streak(last, *old(exec_streak) as nat),
        hint == remembered(last, *old(exec_streak) as nat),
{
    match last {
        Some(ApiTransport::Exec) => {
            *exec_streak = *exec_streak + 1;
            if *exec_streak >= 2 {
                Some(ApiTransport::Exec)
            } else {
                None
            }
        },
        other => {
            *exec_streak = 0;
            other
        },
    }
}

/// The streak after a history of connections.
pub open spec fn streak_of(history: Seq<Option<ApiTransport>>) -> nat
    decreases history.len(),
{
    if history.len() == 0 {
        0
    } else {
        next_streak(history.last(), streak_of(history.drop_last()))
    }
}

/// What is remembered after a history of connections.
pub open spec fn hint_of(history: Seq<Option<ApiTransport>>) -> Option<ApiTransport> {
    remembered(history.last(), streak_of(history.drop_last()))
}

/// The exec relay is remembered if and only if the last two connections both
/// fell back to it; any other transport is remembered at once.
pub proof fn law_a_fallback_is_remembered_after_two(history: Seq<Option<ApiTransport>>)
    requires
        history.len() > 0,
    ensures
        hint_of(history) == Some(ApiTransport::Exec) <==> history.len() >= 2 && history.last()
            == Some(ApiTransport::Exec) && history[history.len() - 2] == Some(ApiTransport::Exec),
        history.last() != Some(ApiTransport::Exec) ==> hint_of(history) == history.last()
            && streak_of(history) == 0,
{
    if history.len() >= 2 {
        assert(history.drop_last().last() == history[history.len() - 2]);
    }
}

// ---------------------------------------------------------------------------
// retry pacing

/// The seconds to wait after a lost connection: a ladder whose last rung is
/// kept. An unreachable machine is a fault, and is wanted back fast.
pub open spec fn reconnect_delay(rung: nat) -> u64 {
    if rung == 0 {
        5
    } else if rung == 1 {
        10
    } else {
        30
    }
}

/// The seconds to wait for a stopped container, which is no fault.
pub const DORMANT_DELAY: u64 = 300;

/// Where a host is on the ladder, and whether it was last seen dormant.
#[derive(Debug, Clone, Copy, PartialEq, Eq, Structural)]
pub struct Backoff {
    pub rung: usize,
    pub was_dormant: bool,
}

/// What follows a lost connection.
#[derive(Debug, Clone, Copy, PartialEq, Eq, Structural)]
pub struct Retry {
    pub delay: u64,
    pub logged: bool,
}

impl Backoff {
    /// The ladder of a host that was never lost.
    pub fn new() -> (b: Backoff)
        ensures
            b == (Backoff { rung: 0, was_dormant: false }),
    {
        Backoff { rung: 0, was_dormant: false }
    }

    /// The ladder once a connection is up: the next loss starts at its foot.
    pub open spec fn up(self) -> Backoff {
        Backoff { rung: 0, ..self }
    }

    pub fn connected(&mut self)
        ensures
            *final(self) == old(self).up(),
    {
        self.rung = 0;
    }

    /// The ladder after a loss. A dormant host does not climb it.
    pub open spec fn down(self, dormant: bool) -> Backoff {
        Backoff {
            rung: if dormant || self.rung == usize::MAX {
                self.rung
            } else {
                (self.rung + 1) as usize
            },
            was_dormant: dormant,
        }
    }

    /// What follows a loss: dormancy is logged when it begins, a fault always.
    pub open spec fn retry(self, dormant: bool) -> Retry {
        Retry {
            delay: if dormant {
                DORMANT_DELAY
            } else {
                reconnect_delay(self.rung as nat)
            },
            logged: !dormant || !self.was_dormant,
        }
    }

    /// Takes a loss. A loss is dormancy when its message starts with the mark
    /// of dormancy: elsewhere in the message stand names that the user chose.
    pub fn lost(&mut self, message: &str, dormant_mark: &str) -> (retry: Retry)
        ensures
            *final(self) == old(self).down(text_starts_with(message@, dormant_mark@)),
            retry == old(self).retry(text_starts_with(message@, dormant_mark@)),
    {
        let dormant = starts_with(message, dormant_mark);
        let delay: u64 = if dormant {
            DORMANT_DELAY
        } else if self.rung == 0 {
            5
        } else if self.rung == 1 {
            10
        } else {
            30
        };
        let logged = !dormant || !self.was_dormant;
        if !dormant && self.rung < usize::MAX {
            self.rung = self.rung + 1;
        }
        self.was_dormant = dormant;
        Retry { delay, logged }
    }
}

/// The ladder after a run of losses, each dormant or not.
pub open spec fn after_losses(b: Backoff, losses: Seq<bool>) -> Backoff
    decreases losses.len(),
{
    if losses.len() == 0 {
        b
    } else {
        after_losses(b, losses.drop_last()).down(losses.last())
    }
}

/// However long a host was dormant, its first real fault after it was last
/// connected is retried at the foot of the ladder.
pub proof fn law_dormancy_keeps_the_ladder(b: Backoff, losses: Seq<bool>)
    requires
        forall|i: int| 0 <= i < losses.len() ==> losses[i],
    ensures
        after_losses(b.up(), losses).rung == 0,
        after_losses(b.up(), losses).retry(false).delay == 5,
    decreases losses.len(),
{
    if losses.len() > 0 {
        let before = losses.drop_last();
        assert forall|i: int| 0 <= i < before.len() implies before[i] by {
            assert(before[i] == losses[i]);
        }
        law_dormancy_keeps_the_ladder(b, before);
        assert(losses[losses.len() - 1]);
    }
}

/// A dormant spell is logged when it begins and not again; every fault is
/// logged; and a fault never waits longer than thirty seconds.
pub proof fn law_losses_are_logged_once_when_dormant(b: Backoff, dormant: bool)
    ensures
        b.down(true).retry(true).logged == false,
        b.down(false).retry(dormant).logged,
        b.retry(false).logged,
        b.retry(false).delay <= 30,
        b.retry(true).delay == 300,
        b.down(false).retry(false).delay >= b.retry(false).delay,
{
}

/// The message that logs a loss.
pub fn loss_message(host: &str, error: &str, delay: u64) -> (msg: String)
    ensures
        msg@ == "["@ + host@ + "] disconnected ("@ + error@ + ") — retrying in "@ + decimal(
            delay as nat,
        ) + "s"@,
{
    let mut msg = "[".to_owned();
    msg.append(host);
    msg.append("] disconnected (");
    msg.append(error);
    msg.append(") — retrying in ");
    push_decimal(&mut msg, delay);
    msg.append("s");
    msg
}

} // verus!
