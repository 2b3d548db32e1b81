//! Questions to the terminal multiplexer about sessions and their panes.

use crate::util::{display_message, display_message_spec, str_eq, Invocation};
use vstd::prelude::*;

verus! {

/// The format that prints the name of a session.
pub const SESSION_NAME: &'static str = "#{session_name}";

/// The format that prints whether a client is attached to a session.
pub const SESSION_ATTACHED: &'static str = "#{session_attached}";

/// The format that prints the identifier of a pane.
pub const PANE_ID: &'static str = "#{pane_id}";

/// The command that asks for the name of the session that the pane
/// `pane_id` belongs to.
pub fn pane_session(pane_id: &str) -> (c: Invocation)
    ensures
        c@ == display_message_spec(Some(pane_id@), SESSION_NAME@),
{
    display_message(Some(pane_id), SESSION_NAME)
}

/// The command that asks whether a client is attached to `session`.
pub fn session_attached_query(session: &str) -> (c: Invocation)
    ensures
        c@ == display_message_spec(Some(session@), SESSION_ATTACHED@),
{
    display_message(Some(session), SESSION_ATTACHED)
}

/// Whether a client is attached to a session, given what the session
/// answered when asked: any answer but `0` says so, no answer says not.
pub fn is_session_attached(answer: Option<&str>) -> (b: bool)
    ensures
        b == match answer {
            Some(v) => v@ != "0"@,
            None => false,
        },
{
    match answer {
        Some(v) => !str_eq(v, "0"),
        None => false,
    }
}

/// The command that asks for the active pane of `session`.
pub fn active_pane_in_session(session: &str) -> (c: Invocation)
    ensures
        c@ == display_message_spec(Some(session@), PANE_ID@),
{
    display_message(Some(session), PANE_ID)
}

/// The command that asks for the name of the session that has the
/// operator's attention.
pub fn active_tmux_session() -> (c: Invocation)
    ensures
        c@ == display_message_spec(None, SESSION_NAME@),
{
    display_message(None, SESSION_NAME)
}

/// The command that asks for the pane that has the operator's attention.
pub fn active_tmux_pane() -> (c: Invocation)
    ensures
        c@ == display_message_spec(None, PANE_ID@),
{
    display_message(None, PANE_ID)
}

} // verus!
