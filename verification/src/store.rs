//! The facts that the daemon records, and what the front door answers to a
//! session that reports a finished turn.

use crate::inbound::directory::{AddressView, PaneInfo};
use crate::inbound::{set_last_notified_pane, MemoryView, RoutingMemory};
use vstd::prelude::*;
use vstd::string::*;

verus! {

/// The stream that every fact is appended to.
pub const STREAM_ID: &'static str = "harold.events";

/// The name under which the daemon appends.
pub const ACTOR_ID: &'static str = "system:harold";

/// The kind of fact that records a finished turn.
pub const TURN_COMPLETED: &'static str = "TurnCompleted";

/// The kind of fact that records a reply of the operator.
pub const REPLY_RECEIVED: &'static str = "ReplyReceived";

/// What the caller of the front door is told when the store did not take
/// the fact.
pub const WRITE_FAILED: &'static str = "event store write failed";

/// An agent session finished a unit of work.
#[derive(Debug)]
pub struct TurnCompleted {
    pub pane_id: String,
    pub pane_label: String,
    pub last_user_prompt: String,
    pub assistant_message: String,
    pub main_context: String,
}

/// The operator's message log gained a message.
#[derive(Debug)]
pub struct ReplyReceived {
    pub text: String,
}

/// The answer of the front door to an accepted submission.
#[derive(Debug)]
pub struct TurnCompleteResponse {
    pub accepted: bool,
}

impl Clone for TurnCompleted {
    fn clone(&self) -> (r: Self)
        ensures
            r.pane_id@ == self.pane_id@,
            r.pane_label@ == self.pane_label@,
            r.last_user_prompt@ == self.last_user_prompt@,
            r.assistant_message@ == self.assistant_message@,
            r.main_context@ == self.main_context@,
    {
        TurnCompleted {
            pane_id: self.pane_id.clone(),
            pane_label: self.pane_label.clone(),
            last_user_prompt: self.last_user_prompt.clone(),
            assistant_message: self.assistant_message.clone(),
            main_context: self.main_context.clone(),
        }
    }
}

impl Clone for ReplyReceived {
    fn clone(&self) -> (r: Self)
        ensures
            r.text@ == self.text@,
    {
        ReplyReceived { text: self.text.clone() }
    }
}

/// Something that happened and was recorded. A fact does not change once it
/// is appended, and it has no identity but its place in the store.
#[derive(Debug)]
pub enum Fact {
    TurnCompleted(TurnCompleted),
    ReplyReceived(ReplyReceived),
}

impl Fact {
    /// The kind under which the fact is appended.
    pub open spec fn kind_spec(&self) -> Seq<char> {
        match self {
            Fact::TurnCompleted(_) => TURN_COMPLETED@,
            Fact::ReplyReceived(_) => REPLY_RECEIVED@,
        }
    }

    /// The kind under which the fact is appended.
    pub fn kind(&self) -> (k: &'static str)
        ensures
            k@ == self.kind_spec(),
    {
        match self {
            Fact::TurnCompleted(_) => TURN_COMPLETED,
            Fact::ReplyReceived(_) => REPLY_RECEIVED,
        }
    }
}

/// The fact that a submission of the front door becomes. It is to be
/// appended before anything else happens.
pub fn turn_complete(
    pane_id: &str,
    pane_label: &str,
    last_user_prompt: &str,
    assistant_message: &str,
    main_context: &str,
) -> (turn: TurnCompleted)
    ensures
        turn.pane_id@ == pane_id@,
        turn.pane_label@ == pane_label@,
        turn.last_user_prompt@ == last_user_prompt@,
        turn.assistant_message@ == assistant_message@,
        turn.main_context@ == main_context@,
{
    TurnCompleted {
        pane_id: String::from_str(pane_id),
        pane_label: String::from_str(pane_label),
        last_user_prompt: String::from_str(last_user_prompt),
        assistant_message: String::from_str(assistant_message),
        main_context: String::from_str(main_context),
    }
}

/// What the front door answers once the store has answered. A fact that was
/// appended is accepted, and only then does the memory learn of the session
/// that finished; a fact that was not appended is an error to the caller,
/// and the memory stays as it was.
pub fn turn_complete_appended(memory: &mut RoutingMemory, turn: &TurnCompleted, appended: bool) -> (r:
    Result<TurnCompleteResponse, String>)
    ensures
        match r {
            Ok(response) => appended && response.accepted && final(memory)@ == (MemoryView {
                last_routed: old(memory)@.last_routed,
                last_notified: Some(
                    AddressView { pane_id: turn.pane_id@, label: turn.pane_label@ },
                ),
            }),
            Err(message) => !appended && message@ == WRITE_FAILED@ && final(memory)@ == old(
                memory,
            )@,
        },
{
    if appended {
        set_last_notified_pane(
            memory,
            PaneInfo { pane_id: turn.pane_id.clone(), label: turn.pane_label.clone() },
        );
        Ok(TurnCompleteResponse { accepted: true })
    } else {
        Err(String::from_str(WRITE_FAILED))
    }
}

} // verus!
