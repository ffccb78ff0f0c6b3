//! A connected host: its sync loop and its subscription.
//!
//! A connection opens with a subscription to the structure events alone, for
//! the server rejects one that names a pane which is gone. A first full pass
//! prunes the map, and only then are the live panes subscribed to. Each later
//! pass may change the set of panes, and with it the subscription.

use crate::json::Json;
use crate::state::HostState;
use crate::subscription::{
    are_records, broadcast_key, live_ids, pane_key, resubscription, sub_list, sub_records,
    subscribed_key,
};
use crate::sync::{SyncLoop, SyncModel};
use crate::text::texts;
use vstd::prelude::*;

verus! {

/// A connected host.
pub struct Connection {
    pub sync: SyncLoop,
    /// what is subscribed to
    pub key: String,
    /// what the server was asked for and has not answered yet
    pub asked: Option<String>,
}

/// A connected host: what it waits for, what it is subscribed to, and what it
/// has asked for.
#[verifier::ext_equal]
pub struct ConnectionModel {
    pub sync: SyncModel,
    pub key: Seq<char>,
    pub asked: Option<Seq<char>>,
}

impl ConnectionModel {
    /// A connection right after the structure events were subscribed to: a full
    /// pass is due at once.
    pub open spec fn opened(now: u64) -> ConnectionModel {
        ConnectionModel {
            sync: SyncModel::start().poke(now),
            key: broadcast_key(),
            asked: None,
        }
    }

    /// After a full pass that left the host in this state: other panes than
    /// those that are subscribed to are asked for.
    pub open spec fn converged(self, state: HostState) -> ConnectionModel {
        let key = pane_key(live_ids(state));
        ConnectionModel {
            asked: if key == self.key {
                None
            } else {
                Some(key)
            },
            ..self
        }
    }

    /// After an answer of the server: a rejection leaves the structure events.
    pub open spec fn answered(self, accepted: bool) -> ConnectionModel {
        match self.asked {
            Some(key) => ConnectionModel {
                key: if accepted {
                    key
                } else {
                    broadcast_key()
                },
                asked: None,
                ..self
            },
            None => self,
        }
    }
}

impl View for Connection {
    type V = ConnectionModel;

    open spec fn view(&self) -> ConnectionModel {
        ConnectionModel {
            sync: self.sync@,
            key: self.key@,
            asked: match self.asked {
                Some(key) => Some(key@),
                None => None,
            },
        }
    }
}

impl Connection {
    pub open spec fn wf(self) -> bool {
        self.sync.wf()
    }

    /// The subscriptions that a connection opens with.
    pub fn opening() -> (subs: Vec<Json>)
        ensures
            are_records(subs@, sub_records(Seq::empty())),
    {
        let none: Vec<String> = Vec::new();
        assert(texts(none@) =~= Seq::empty());
        sub_list(none.as_slice())
    }

    /// A connection whose opening subscriptions were accepted.
    pub fn open(now: u64) -> (c: Connection)
        ensures
            c.wf(),
            c@ == ConnectionModel::opened(now),
    {
        let mut sync = SyncLoop::new();
        sync.on_poke(now);
        Connection { sync, key: "<broadcast>".to_owned(), asked: None }
    }

    /// Takes the state that a full pass left, and tells what to subscribe to.
    pub fn on_converged(&mut self, state: &HostState) -> (subs: Option<Vec<Json>>)
        requires
            old(self).wf(),
        ensures
            final(self).wf(),
            final(self)@ == old(self)@.converged(*state),
            match subs {
                Some(list) => final(self)@.asked is Some && are_records(
                    list@,
                    sub_records(live_ids(*state)),
                ),
                None => final(self)@.asked is None,
            },
    {
        match resubscription(state, self.key.as_str()) {
            Some((ids, key)) => {
                self.asked = Some(key);
                Some(sub_list(ids.as_slice()))
            },
            None => {
                self.asked = None;
                None
            },
        }
    }

    /// Takes the answer to a subscription, and tells what to subscribe to
    /// instead: after a rejection, to the structure events alone.
    pub fn on_answer(&mut self, accepted: bool) -> (subs: Option<Vec<Json>>)
        requires
            old(self).wf(),
        ensures
            final(self).wf(),
            final(self)@ == old(self)@.answered(accepted),
            match subs {
                Some(list) => old(self)@.asked is Some && !accepted && are_records(
                    list@,
                    sub_records(Seq::empty()),
                ),
                None => old(self)@.asked is None || accepted,
            },
    {
        let mut asked: Option<String> = None;
        std::mem::swap(&mut asked, &mut self.asked);
        match asked {
            Some(key) => {
                self.key = subscribed_key(key, accepted);
                if accepted {
                    None
                } else {
                    Some(Connection::opening())
                }
            },
            None => None,
        }
    }
}

/// Once the server has taken the panes of a state, the next pass that leaves
/// the same live panes asks for nothing; one that was rejected asks again.
pub proof fn law_a_subscription_settles(c: ConnectionModel, state: HostState, later: HostState)
    requires
        live_ids(state) == live_ids(later),
    ensures
        c.converged(state).answered(true).converged(later).asked is None,
        c.key == broadcast_key() && pane_key(live_ids(state)) != broadcast_key() ==> c.converged(
            state,
        ).answered(false).converged(later).asked == Some(pane_key(live_ids(state))),
        c.converged(state).sync == c.sync,
        c.converged(state).answered(false).sync == c.sync,
{
}

/// The message that logs a rejected subscription.
pub fn rejection_message(host: &str, error: &str) -> (msg: String)
    ensures
        msg@ == "["@ + host@ + "] pane subscriptions rejected ("@ + error@
            + ") — broadcast only"@,
{
    let mut msg = "[".to_owned();
    msg.append(host);
    msg.append("] pane subscriptions rejected (");
    msg.append(error);
    msg.append(") — broadcast only");
    msg
}

} // verus!
