//! Notifications to the operator about finished turns: whether one is due,
//! over which channel, and what it says.

pub mod imessage;
pub mod tts;

use crate::inbound::directory::AgentAddress;
use crate::inbound::{set_last_away_notification_source_agent, MemoryView, RoutingMemory};
use crate::outbound::imessage::{
    notify_away, notify_away_spec, summarise_for_imessage, summarise_spec, DeliveryView,
};
use crate::outbound::tts::{build_short_summary, desk_message, short_summary_spec, tts_args};
use crate::settings::{NotifySettings, Settings};
use crate::store::TurnCompleted;
use crate::text::{chars_eq, chars_of, trim, trim_vec};
use crate::util::{str_eq, texts, Invocation, InvocationView};
use vstd::prelude::*;
use vstd::string::*;

verus! {

/// A way to reach the operator.
#[derive(Debug, Clone, Copy, PartialEq, Eq, Structural)]
pub enum OutboundChannel {
    /// Speech, for the operator at the desk.
    Tts,
    /// A text message, for the operator who is away.
    IMessage,
}

/// The shell script that prints whether the screen is locked.
pub const SCREEN_LOCK_SCRIPT: &'static str =
    "ioreg -n Root -d1 -a | plutil -extract IOConsoleLocked raw -";

/// The command that asks whether the screen is locked.
pub fn screen_lock_query() -> (c: Invocation)
    ensures
        c@ == (InvocationView { program: "bash"@, args: seq!["-c"@, SCREEN_LOCK_SCRIPT@] }),
{
    let mut args: Vec<String> = Vec::new();
    args.push(String::from_str("-c"));
    args.push(String::from_str(SCREEN_LOCK_SCRIPT));
    let c = Invocation { program: String::from_str("bash"), args };
    assert(c@.args =~= seq!["-c"@, SCREEN_LOCK_SCRIPT@]);
    c
}

/// Whether the screen is locked, given what the query printed: only the
/// word `true` says so; no answer says not.
pub fn is_screen_locked(output: Option<&str>) -> (b: bool)
    ensures
        b == match output {
            Some(out) => trim(out@) == "true"@,
            None => false,
        },
{
    match output {
        Some(out) => chars_eq(&trim_vec(&chars_of(out)), &chars_of("true")),
        None => false,
    }
}

/// Where the operator's attention is.
#[derive(Debug)]
pub struct Presence {
    /// Whether the screen is locked.
    pub screen_locked: bool,
    /// The session that has the operator's attention, if known.
    pub active_session: Option<String>,
    /// The session of the pane whose turn was finished, if known.
    pub pane_session: Option<String>,
    /// The pane that has the operator's attention, if known.
    pub active_pane: Option<String>,
}

/// The text of a string that may be absent.
pub open spec fn opt_text(s: Option<String>) -> Option<Seq<char>> {
    match s {
        Some(s) => Some(s@),
        None => None,
    }
}

/// A borrowed form of a string that may be absent.
pub fn opt_str(s: &Option<String>) -> (r: Option<&str>)
    ensures
        match r {
            Some(t) => opt_text(*s) == Some(t@),
            None => s is None,
        },
{
    match s {
        Some(s) => Some(s.as_str()),
        None => None,
    }
}

/// Whether the operator is looking at the session of the finished turn.
pub open spec fn session_in_view(presence: &Presence) -> bool {
    presence.active_session is Some && presence.pane_session is Some
        && presence.active_session.unwrap()@ == presence.pane_session.unwrap()@
}

/// Whether the operator is looking at the pane of the finished turn.
pub open spec fn pane_in_view(presence: &Presence, pane_id: Seq<char>) -> bool {
    presence.active_pane is Some && presence.active_pane.unwrap()@ == pane_id
}

/// The channel for the notification of a finished turn, if one is due. None
/// is due where the settings say to skip a session in view and it is in
/// view, or where they say to skip a pane in view, the screen is unlocked
/// and the pane is in view. Otherwise a locked screen means a text message
/// and an unlocked one speech.
pub open spec fn notify_spec(
    pane_id: Seq<char>,
    settings: &NotifySettings,
    presence: &Presence,
) -> Option<OutboundChannel> {
    if settings.skip_if_session_active && session_in_view(presence) {
        None
    } else if settings.skip_if_pane_active && !presence.screen_locked && pane_in_view(
        presence,
        pane_id,
    ) {
        None
    } else if presence.screen_locked {
        Some(OutboundChannel::IMessage)
    } else {
        Some(OutboundChannel::Tts)
    }
}

/// Decides whether a finished turn is notified, and over which channel.
pub fn notify(turn: &TurnCompleted, settings: &NotifySettings, presence: &Presence) -> (r: Option<
    OutboundChannel,
>)
    ensures
        r == notify_spec(turn.pane_id@, settings, presence),
{
    if settings.skip_if_session_active {
        if let Some(active) = &presence.active_session {
            if let Some(own) = &presence.pane_session {
                if str_eq(active.as_str(), own.as_str()) {
                    return None;
                }
            }
        }
    }
    if settings.skip_if_pane_active && !presence.screen_locked {
        if let Some(active) = &presence.active_pane {
            if str_eq(active.as_str(), turn.pane_id.as_str()) {
                return None;
            }
        }
    }
    if presence.screen_locked {
        Some(OutboundChannel::IMessage)
    } else {
        Some(OutboundChannel::Tts)
    }
}

/// What the assistants and the message log answered when they were asked
/// about a finished turn. Each is `None` where the question was not put or
/// got no answer.
#[derive(Debug)]
pub struct Reports {
    /// What the local model printed when asked for a short summary.
    pub model_output: Option<String>,
    /// What the assistant printed when asked for a summary.
    pub summary_output: Option<String>,
    /// The text of the message that was sent last.
    pub last_outgoing: Option<String>,
}

impl OutboundChannel {
    /// What a channel sends about a finished turn, and the session that it
    /// names as the source: speech names none; a text message names the
    /// session of the turn where it is in fact sent.
    pub open spec fn notify_spec(
        &self,
        turn: &TurnCompleted,
        settings: &Settings,
        reports: &Reports,
    ) -> DeliveryView {
        match self {
            OutboundChannel::Tts => DeliveryView {
                commands: seq![
                    InvocationView {
                        program: settings.tts.command@,
                        args: tts_args(
                            match settings.tts.args {
                                Some(a) => Some(texts(a@)),
                                None => None,
                            },
                            opt_text(settings.tts.voice),
                            desk_message(
                                short_summary_spec(opt_text(reports.model_output)),
                                turn.main_context@,
                            ),
                        ),
                    },
                ],
                source: None,
            },
            OutboundChannel::IMessage => notify_away_spec(
                turn.pane_label@,
                turn.pane_id@,
                turn.main_context@,
                opt_text(settings.imessage.recipient),
                summarise_spec(turn.assistant_message@, opt_text(reports.summary_output)),
                opt_text(reports.last_outgoing),
            ),
        }
    }

    /// The commands that notify the operator of a finished turn over this
    /// channel, and the session to remember as the source of the
    /// notification, if any.
    pub fn notify(&self, turn: &TurnCompleted, settings: &Settings, reports: &Reports) -> (r: (
        Vec<Invocation>,
        Option<AgentAddress>,
    ))
        ensures
            (DeliveryView {
                commands: r.0@.map_values(|c: Invocation| c@),
                source: match r.1 {
                    Some(a) => Some(a@),
                    None => None,
                },
            }) == self.notify_spec(turn, settings, reports),
    {
        match self {
            OutboundChannel::Tts => {
                let summary = build_short_summary(opt_str(&reports.model_output));
                let command = crate::outbound::tts::notify_at_desk(
                    turn,
                    summary.as_str(),
                    &settings.tts,
                );
                let ghost view = command@;
                let mut commands: Vec<Invocation> = Vec::new();
                commands.push(command);
                assert(commands@.map_values(|c: Invocation| c@) =~= seq![view]);
                (commands, None)
            },
            OutboundChannel::IMessage => {
                let body = summarise_for_imessage(
                    turn.assistant_message.as_str(),
                    opt_str(&reports.summary_output),
                );
                notify_away(
                    turn,
                    opt_str(&settings.imessage.recipient),
                    body.as_str(),
                    opt_str(&reports.last_outgoing),
                )
            },
        }
    }
}

/// Remembers the source of a notification that was sent to the operator who
/// was away. Without a source the memory stays as it was.
pub fn notified(memory: &mut RoutingMemory, source: Option<AgentAddress>)
    ensures
        final(memory)@ == (match source {
            Some(a) => MemoryView {
                last_routed: old(memory)@.last_routed,
                last_notified: Some(a@),
            },
            None => old(memory)@,
        }),
{
    if let Some(a) = source {
        set_last_away_notification_source_agent(memory, a);
    }
}

} // verus!
