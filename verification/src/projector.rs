//! The single consumer of the recorded facts: which component a fact is
//! handed to.

use crate::store::{Fact, REPLY_RECEIVED, TURN_COMPLETED};
use crate::util::str_eq;
use vstd::prelude::*;

verus! {

/// Where a delivered fact goes.
#[derive(Debug, Clone, Copy, PartialEq, Eq, Structural)]
pub enum Dispatch {
    /// To the notifier: a turn was finished.
    Notify,
    /// To the reply router: the operator wrote.
    Route,
    /// Nowhere: the kind is unknown. This is never an error.
    Skip,
}

/// Where a fact of kind `event_type` goes.
pub open spec fn dispatch_spec(event_type: Seq<char>) -> Dispatch {
    if event_type == TURN_COMPLETED@ {
        Dispatch::Notify
    } else if event_type == REPLY_RECEIVED@ {
        Dispatch::Route
    } else {
        Dispatch::Skip
    }
}

/// Where a fact of kind `event_type` goes.
pub fn dispatch(event_type: &str) -> (d: Dispatch)
    ensures
        d == dispatch_spec(event_type@),
{
    if str_eq(event_type, TURN_COMPLETED) {
        Dispatch::Notify
    } else if str_eq(event_type, REPLY_RECEIVED) {
        Dispatch::Route
    } else {
        Dispatch::Skip
    }
}

/// Where each fact of a batch goes, in the order of delivery.
pub fn dispatch_batch(event_types: &Vec<String>) -> (r: Vec<Dispatch>)
    ensures
        r@ == Seq::new(event_types.len() as nat, |i: int| dispatch_spec(event_types@[i]@)),
{
    let mut r: Vec<Dispatch> = Vec::new();
    let mut i: usize = 0;
    while i < event_types.len()
        invariant
            i <= event_types.len(),
            r@ == Seq::new(i as nat, |j: int| dispatch_spec(event_types@[j]@)),
        decreases event_types.len() - i,
    {
        r.push(dispatch(event_types[i].as_str()));
        assert(r@ =~= Seq::new((i + 1) as nat, |j: int| dispatch_spec(event_types@[j]@)));
        i += 1;
    }
    r
}

/// Every fact that the daemon records reaches its component: a finished
/// turn the notifier, a reply the router. None is skipped.
pub proof fn law_recorded_facts_are_dispatched(fact: Fact)
    ensures
        dispatch_spec(fact.kind_spec()) == (match fact {
            Fact::TurnCompleted(_) => Dispatch::Notify,
            Fact::ReplyReceived(_) => Dispatch::Route,
        }),
{
    reveal_strlit("TurnCompleted");
    reveal_strlit("ReplyReceived");
    assert(TURN_COMPLETED@[0] == 'T');
    assert(REPLY_RECEIVED@[0] == 'R');
}

} // verus!
