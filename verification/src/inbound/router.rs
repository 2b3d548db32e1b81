//! Routing one reply, step by step.
//!
//! Routing needs things that only the caller can do: enumerate the live
//! sessions, ask the classifier, check that the chosen session still lives,
//! type into a pane, answer the operator. A `Routing` value says which of
//! these is due next. The caller does it and reports the result with the
//! method of that step; the value that comes back says what is due then.
//! `Deliver` and `Report` end the exchange.

use crate::inbound::directory::{addresses, same_target_spec, AddressView, AgentAddress};
use crate::inbound::{
    parse_tag, parse_tag_spec, resolve_index, resolve_spec, set_last_routed_agent, text_view,
    MemoryView, RoutingMemory,
};
use crate::text::{chars_of, join, remove_all, remove_all_vec, string_of};
use crate::util::{join_strings, texts};
use vstd::prelude::*;
use vstd::string::*;

verus! {

/// What the operator is told when no session is live.
pub const NO_SESSIONS: &'static str = "No active agent sessions found.";

/// How the prompt for the classifier begins; the reply's body follows.
pub const PROMPT_HEAD: &'static str =
    "You are a routing classifier. Do NOT answer or respond to the message content.\n\nMESSAGE TO CLASSIFY:\n<message>\n";

/// What stands in the prompt between the reply's body and the list of labels.
pub const PROMPT_PANES: &'static str = "\n</message>\n\nACTIVE TMUX PANES:\n";

/// How the prompt ends, after the list of labels.
pub const PROMPT_TAIL: &'static str =
    "\n\nPane labels use hyphens where users may write spaces (e.g. 'my agent' refers to 'my-agent').\nDoes the message contain EXPLICIT routing intent to a specific pane? (direct address like 'To X,', 'ask X', '[X]', 'my agent')\nIf yes, reply on two lines:\nLINE1: exact pane label\nLINE2: message with routing prefix removed\nIf no explicit routing intent, reply: none";

/// The tag that closes the reply's body within the prompt. A body must not
/// hold it, or it could pass for part of the prompt.
pub const MESSAGE_END: &'static str = "</message>";

/// The labels of `panes` in order, without the sessions that `except`
/// reaches.
pub open spec fn labels_except(panes: Seq<AddressView>, except: Option<AddressView>) -> Seq<
    Seq<char>,
>
    decreases panes.len(),
{
    if panes.len() == 0 {
        Seq::empty()
    } else {
        let rest = labels_except(panes.drop_last(), except);
        if except is Some && same_target_spec(panes.last(), except.unwrap()) {
            rest
        } else {
            rest.push(panes.last().label)
        }
    }
}

/// The labels of `panes` in order, each as an item of a list.
pub open spec fn bullet_lines(panes: Seq<AddressView>) -> Seq<Seq<char>>
    decreases panes.len(),
{
    if panes.len() == 0 {
        Seq::empty()
    } else {
        bullet_lines(panes.drop_last()).push("- "@ + panes.last().label)
    }
}

/// The prompt that asks the classifier whether a reply names one of `panes`:
/// the reply's body, with every closing tag of the message taken out, and
/// the labels to choose from.
pub open spec fn semantic_prompt_spec(body: Seq<char>, panes: Seq<AddressView>) -> Seq<char> {
    PROMPT_HEAD@ + remove_all(body, MESSAGE_END@) + PROMPT_PANES@ + join(
        bullet_lines(panes),
        "\n"@,
    ) + PROMPT_TAIL@
}

/// The labels of `panes` in order, without the sessions that `except`
/// reaches.
fn labels_of(panes: &[AgentAddress], except: Option<&AgentAddress>) -> (r: Vec<String>)
    ensures
        texts(r@) == labels_except(
            addresses(panes@),
            match except {
                Some(a) => Some(a@),
                None => None,
            },
        ),
{
    let ghost all = addresses(panes@);
    let ghost ex: Option<AddressView> = match except {
        Some(a) => Some(a@),
        None => None,
    };
    let mut r: Vec<String> = Vec::new();
    let mut i: usize = 0;
    assert(texts(r@) =~= labels_except(all.take(0), ex));
    while i < panes.len()
        invariant
            i <= panes.len(),
            all == addresses(panes@),
            ex == (match except {
                Some(a) => Some(a@),
                None => None,
            }),
            texts(r@) == labels_except(all.take(i as int), ex),
        decreases panes.len() - i,
    {
        let ghost before = r@;
        assert(all.take(i + 1).drop_last() =~= all.take(i as int));
        assert(all.take(i + 1).last() == panes@[i as int]@);
        let skip = match except {
            Some(a) => panes[i].same_target(a),
            None => false,
        };
        if !skip {
            r.push(String::from_str(panes[i].label()));
            assert(texts(r@) =~= texts(before).push(panes@[i as int]@.label));
        }
        i += 1;
    }
    assert(all.take(panes.len() as int) =~= all);
    r
}

/// The labels of `panes` in order, each as an item of a list.
fn bullets_of(panes: &[AgentAddress]) -> (r: Vec<String>)
    ensures
        texts(r@) == bullet_lines(addresses(panes@)),
{
    let ghost all = addresses(panes@);
    let mut r: Vec<String> = Vec::new();
    let mut i: usize = 0;
    assert(texts(r@) =~= bullet_lines(all.take(0)));
    while i < panes.len()
        invariant
            i <= panes.len(),
            all == addresses(panes@),
            texts(r@) == bullet_lines(all.take(i as int)),
        decreases panes.len() - i,
    {
        let ghost before = r@;
        assert(all.take(i + 1).drop_last() =~= all.take(i as int));
        assert(all.take(i + 1).last() == panes@[i as int]@);
        let mut line = String::from_str("- ");
        line.append(panes[i].label());
        r.push(line);
        assert(texts(r@) =~= texts(before).push("- "@ + panes@[i as int]@.label));
        i += 1;
    }
    assert(all.take(panes.len() as int) =~= all);
    r
}

/// The prompt that asks the classifier whether `body` names one of `panes`.
pub fn semantic_prompt(body: &str, panes: &[AgentAddress]) -> (prompt: String)
    ensures
        prompt@ == semantic_prompt_spec(body@, addresses(panes@)),
{
    let safe = string_of(&remove_all_vec(&chars_of(body), &chars_of(MESSAGE_END)));
    let list = join_strings(&bullets_of(panes), "\n");
    let mut prompt = String::from_str(PROMPT_HEAD);
    prompt.append(safe.as_str());
    prompt.append(PROMPT_PANES);
    prompt.append(list.as_str());
    prompt.append(PROMPT_TAIL);
    prompt
}

/// What the operator is told when a reply found no session: the tag that
/// matched nothing, if there was one, and the labels to choose from.
pub open spec fn no_match_message(tag: Option<Seq<char>>, labels: Seq<Seq<char>>) -> Seq<char> {
    match tag {
        Some(t) => "No pane matching '"@ + t + "'. Available: "@ + join(labels, ", "@),
        None => "No active pane found. Available: "@ + join(labels, ", "@),
    }
}

/// What the operator is told when the chosen session died before the reply
/// reached it: its label, and the labels of the other sessions.
pub open spec fn dead_message(label: Seq<char>, others: Seq<Seq<char>>) -> Seq<char> {
    "Pane "@ + label + " is no longer active. Available: "@ + join(others, ", "@)
}

/// What is typed into the session: the body, marked as coming from the
/// operator's phone.
pub open spec fn relay_text(cleaned: Seq<char>) -> Seq<char> {
    "\u{1F4F1} "@ + cleaned
}

/// What the operator is told when the reply was handed over.
pub open spec fn delivered_message(label: Seq<char>) -> Seq<char> {
    "\u{2713} Delivered to ["@ + label + "]"@
}

/// What is due next in routing one reply.
#[derive(Debug)]
pub enum Routing {
    /// Enumerate the live sessions; report them with `sessions`.
    Discover { text: String },
    /// Ask the classifier `prompt`; report what it printed with `classified`.
    Classify { body: String, panes: Vec<AgentAddress>, prompt: String },
    /// Check that session `chosen` of `panes` still lives; report it with
    /// `probed`.
    Probe { panes: Vec<AgentAddress>, chosen: usize, cleaned: String },
    /// Relay `text` to `target`, then send `confirmation` to the operator.
    Deliver { target: AgentAddress, text: String, confirmation: String },
    /// Send `message` to the operator.
    Report { message: String },
}

/// A `Routing` value as plain text.
pub enum RoutingView {
    Discover { text: Seq<char> },
    Classify { body: Seq<char>, panes: Seq<AddressView>, prompt: Seq<char> },
    Probe { panes: Seq<AddressView>, chosen: int, cleaned: Seq<char> },
    Deliver { target: AddressView, text: Seq<char>, confirmation: Seq<char> },
    Report { message: Seq<char> },
}

impl View for Routing {
    type V = RoutingView;

    open spec fn view(&self) -> RoutingView {
        match self {
            Routing::Discover { text } => RoutingView::Discover { text: text@ },
            Routing::Classify { body, panes, prompt } => RoutingView::Classify {
                body: body@,
                panes: addresses(panes@),
                prompt: prompt@,
            },
            Routing::Probe { panes, chosen, cleaned } => RoutingView::Probe {
                panes: addresses(panes@),
                chosen: *chosen as int,
                cleaned: cleaned@,
            },
            Routing::Deliver { target, text, confirmation } => RoutingView::Deliver {
                target: target@,
                text: text@,
                confirmation: confirmation@,
            },
            Routing::Report { message } => RoutingView::Report { message: message@ },
        }
    }
}

/// What follows a choice: the chosen session is checked, or the operator is
/// told that none was found.
pub open spec fn after_choice(
    panes: Seq<AddressView>,
    tag: Option<Seq<char>>,
    choice: Option<(int, Seq<char>)>,
) -> RoutingView {
    match choice {
        Some((i, cleaned)) => RoutingView::Probe { panes, chosen: i, cleaned },
        None => RoutingView::Report {
            message: no_match_message(tag, labels_except(panes, None)),
        },
    }
}

/// What follows the enumeration of the live sessions. With none, the
/// operator is told so and nothing is resolved. A reply without a tag goes
/// to the classifier where there is more than one session, and only there.
/// Every other reply is resolved at once.
pub open spec fn after_sessions(
    text: Seq<char>,
    panes: Seq<AddressView>,
    memory: MemoryView,
) -> RoutingView {
    let (tag, body) = parse_tag_spec(text);
    if panes.len() == 0 {
        RoutingView::Report { message: NO_SESSIONS@ }
    } else if tag is None && panes.len() > 1 {
        RoutingView::Classify { body, panes, prompt: semantic_prompt_spec(body, panes) }
    } else {
        after_choice(panes, tag, resolve_spec(tag, body, panes, memory, None))
    }
}

/// What follows the classifier's answer to a reply without a tag.
pub open spec fn after_classified(
    body: Seq<char>,
    panes: Seq<AddressView>,
    memory: MemoryView,
    output: Option<Seq<char>>,
) -> RoutingView {
    after_choice(panes, None, resolve_spec(None, body, panes, memory, output))
}

/// What follows the check of the chosen session: the reply is delivered to
/// a live session; of a dead one the operator is told, with the sessions
/// that are left.
pub open spec fn after_probe(
    panes: Seq<AddressView>,
    chosen: int,
    cleaned: Seq<char>,
    alive: bool,
) -> RoutingView {
    if alive {
        RoutingView::Deliver {
            target: panes[chosen],
            text: relay_text(cleaned),
            confirmation: delivered_message(panes[chosen].label),
        }
    } else {
        RoutingView::Report {
            message: dead_message(
                panes[chosen].label,
                labels_except(panes, Some(panes[chosen])),
            ),
        }
    }
}

/// The step that a choice leads to.
fn settle(panes: Vec<AgentAddress>, tag: Option<&str>, choice: Option<(usize, String)>) -> (next:
    Routing)
    requires
        choice matches Some((i, _)) ==> i < panes.len(),
    ensures
        next@ == after_choice(
            addresses(panes@),
            text_view(tag),
            match choice {
                Some((i, cleaned)) => Some((i as int, cleaned@)),
                None => None,
            },
        ),
        next.wf(),
{
    match choice {
        Some((chosen, cleaned)) => Routing::Probe { panes, chosen, cleaned },
        None => {
            let available = join_strings(&labels_of(panes.as_slice(), None), ", ");
            let message = match tag {
                Some(t) => {
                    let mut m = String::from_str("No pane matching '");
                    m.append(t);
                    m.append("'. Available: ");
                    m.append(available.as_str());
                    m
                },
                None => {
                    let mut m = String::from_str("No active pane found. Available: ");
                    m.append(available.as_str());
                    m
                },
            };
            Routing::Report { message }
        },
    }
}

/// Begins to route a reply: the live sessions are to be enumerated first.
pub fn route_reply(text: &str) -> (r: Routing)
    ensures
        r@ == (RoutingView::Discover { text: text@ }),
        r.wf(),
{
    Routing::Discover { text: String::from_str(text) }
}

impl Routing {
    /// Whether the value is one that routing can reach: the session to check
    /// is one of the sessions at hand.
    pub open spec fn wf(&self) -> bool {
        match self {
            Routing::Probe { panes, chosen, .. } => *chosen < panes.len(),
            _ => true,
        }
    }

    /// Whether routing has ended: what is left is to deliver or to report.
    pub fn is_final(&self) -> (b: bool)
        ensures
            b == (self@ is Deliver || self@ is Report),
    {
        match self {
            Routing::Deliver { .. } => true,
            Routing::Report { .. } => true,
            _ => false,
        }
    }

    /// Takes the live sessions that the caller enumerated. In any state but
    /// `Discover` nothing changes.
    pub fn sessions(self, panes: Vec<AgentAddress>, memory: &RoutingMemory) -> (next: Routing)
        requires
            self.wf(),
        ensures
            next.wf(),
            next@ == match self@ {
                RoutingView::Discover { text } => after_sessions(
                    text,
                    addresses(panes@),
                    memory@,
                ),
                other => other,
            },
    {
        match self {
            Routing::Discover { text } => {
                if panes.len() == 0 {
                    return Routing::Report { message: String::from_str(NO_SESSIONS) };
                }
                let (tag, body) = parse_tag(text.as_str());
                if tag.is_none() && panes.len() > 1 {
                    let prompt = semantic_prompt(body, panes.as_slice());
                    return Routing::Classify { body: String::from_str(body), panes, prompt };
                }
                let choice = resolve_index(tag, body, panes.as_slice(), memory, None);
                settle(panes, tag, choice)
            },
            other => other,
        }
    }

    /// Takes what the classifier printed, or `None` where it is not set up,
    /// could not be run or failed. In any state but `Classify` nothing
    /// changes.
    pub fn classified(self, output: Option<&str>, memory: &RoutingMemory) -> (next: Routing)
        requires
            self.wf(),
        ensures
            next.wf(),
            next@ == match self@ {
                RoutingView::Classify { body, panes, prompt } => after_classified(
                    body,
                    panes,
                    memory@,
                    text_view(output),
                ),
                other => other,
            },
    {
        match self {
            Routing::Classify { body, panes, prompt } => {
                let choice = resolve_index(None, body.as_str(), panes.as_slice(), memory, output);
                settle(panes, None, choice)
            },
            other => other,
        }
    }

    /// Takes the result of the check of the chosen session. A live session
    /// gets the reply and is remembered as the one routed to last; the memory
    /// changes in no other case. In any state but `Probe` nothing changes.
    pub fn probed(self, alive: bool, memory: &mut RoutingMemory) -> (next: Routing)
        requires
            self.wf(),
        ensures
            next.wf(),
            next@ == match self@ {
                RoutingView::Probe { panes, chosen, cleaned } => after_probe(
                    panes,
                    chosen,
                    cleaned,
                    alive,
                ),
                other => other,
            },
            final(memory)@ == match self@ {
                RoutingView::Probe { panes, chosen, cleaned } if alive => MemoryView {
                    last_routed: Some(panes[chosen]),
                    last_notified: old(memory)@.last_notified,
                },
                _ => old(memory)@,
            },
    {
        match self {
            Routing::Probe { panes, chosen, cleaned } => {
                let target = panes[chosen].clone();
                if alive {
                    let mut text = String::from_str("\u{1F4F1} ");
                    text.append(cleaned.as_str());
                    let mut confirmation = String::from_str("\u{2713} Delivered to [");
                    confirmation.append(target.label());
                    confirmation.append("]");
                    set_last_routed_agent(memory, target.clone());
                    Routing::Deliver { target, text, confirmation }
                } else {
                    let others = join_strings(&labels_of(panes.as_slice(), Some(&target)), ", ");
                    let mut message = String::from_str("Pane ");
                    message.append(target.label());
                    message.append(" is no longer active. Available: ");
                    message.append(others.as_str());
                    Routing::Report { message }
                }
            },
            other => other,
        }
    }
}

/// With no live session nothing is resolved: the operator is told that no
/// session is active, whatever the reply says and the memory holds.
pub proof fn law_no_sessions_reported(text: Seq<char>, memory: MemoryView)
    ensures
        after_sessions(text, Seq::empty(), memory) == (RoutingView::Report {
            message: NO_SESSIONS@,
        }),
{
}

/// The classifier is asked only about a reply without a tag while more than
/// one session lives. With a single live session it is never asked.
pub proof fn law_classifier_asked_only_to_disambiguate(
    text: Seq<char>,
    panes: Seq<AddressView>,
    memory: MemoryView,
)
    ensures
        after_sessions(text, panes, memory) is Classify <==> parse_tag_spec(text).0 is None
            && panes.len() > 1,
{
}

} // verus!
