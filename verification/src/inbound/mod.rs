//! Replies from the operator: which agent session a reply is meant for.
//!
//! A reply may name its session in a leading tag, `[label] body`. Without a
//! tag the session is found by asking a classifier, then by what was routed
//! or notified last, then by a conventional name. The rules are stated once,
//! in `resolve_spec`; everything else in this module computes what it says.

pub mod directory;
pub mod router;
pub mod tmux;

use crate::inbound::directory::{addresses, same_target_spec, AddressView, AgentAddress, PaneInfo};
use crate::text::{
    chars_eq, chars_of, contains, contains_in, copy_range, cut, find_char, index_from,
    lemma_lines_nonempty, line_ranges, lines, lowercase, lowercase_vec, string_of, trim, trim_at,
    trim_char, trim_char_vec, trim_start_matches, trim_start_matches_vec, trim_vec,
};
use crate::util::str_eq;
use vstd::prelude::*;
use vstd::string::*;

verus! {

/// What the router remembers between replies. Either slot may name a session
/// that no longer lives: whoever reads a slot checks it against the live
/// sessions.
#[derive(Debug)]
pub struct RoutingMemory {
    last_routed_agent: Option<AgentAddress>,
    last_away_notification_source_agent: Option<AgentAddress>,
}

/// The routing memory as plain text.
pub struct MemoryView {
    /// The session that the last reply was routed to.
    pub last_routed: Option<AddressView>,
    /// The session whose finished turn last caused a notification to the
    /// operator who was away.
    pub last_notified: Option<AddressView>,
}

/// The plain-text form of an address that may be absent.
pub open spec fn address_view(a: Option<AgentAddress>) -> Option<AddressView> {
    match a {
        Some(a) => Some(a@),
        None => None,
    }
}

impl View for RoutingMemory {
    type V = MemoryView;

    closed spec fn view(&self) -> MemoryView {
        MemoryView {
            last_routed: address_view(self.last_routed_agent),
            last_notified: address_view(self.last_away_notification_source_agent),
        }
    }
}

impl RoutingMemory {
    /// A memory with both slots empty, as after a start of the process.
    pub fn new() -> (m: RoutingMemory)
        ensures
            m@.last_routed is None,
            m@.last_notified is None,
    {
        RoutingMemory { last_routed_agent: None, last_away_notification_source_agent: None }
    }
}

/// Records the session that a reply was routed to. The last write wins.
pub fn set_last_routed_agent(memory: &mut RoutingMemory, addr: AgentAddress)
    ensures
        final(memory)@.last_routed == Some(addr@),
        final(memory)@.last_notified == old(memory)@.last_notified,
{
    memory.last_routed_agent = Some(addr);
}

/// Records the session whose finished turn caused a notification to the
/// operator who was away. The last write wins.
pub fn set_last_away_notification_source_agent(memory: &mut RoutingMemory, addr: AgentAddress)
    ensures
        final(memory)@.last_notified == Some(addr@),
        final(memory)@.last_routed == old(memory)@.last_routed,
{
    memory.last_away_notification_source_agent = Some(addr);
}

/// Records the pane whose finished turn was notified last.
pub fn set_last_notified_pane(memory: &mut RoutingMemory, pane: PaneInfo)
    ensures
        final(memory)@.last_notified == Some(
            AddressView { pane_id: pane.pane_id@, label: pane.label@ },
        ),
        final(memory)@.last_routed == old(memory)@.last_routed,
{
    memory.last_away_notification_source_agent = Some(pane.into_address());
}

/// A copy of the session that the last reply was routed to.
pub fn get_last_routed_agent(memory: &RoutingMemory) -> (r: Option<AgentAddress>)
    ensures
        address_view(r) == memory@.last_routed,
{
    match &memory.last_routed_agent {
        Some(a) => Some(a.clone()),
        None => None,
    }
}

/// A copy of the session whose finished turn was notified last.
pub fn get_last_away_notification_source_agent(memory: &RoutingMemory) -> (r: Option<
    AgentAddress,
>)
    ensures
        address_view(r) == memory@.last_notified,
{
    match &memory.last_away_notification_source_agent {
        Some(a) => Some(a.clone()),
        None => None,
    }
}

/// A copy of the pane whose finished turn was notified last.
pub fn get_last_notified_pane(memory: &RoutingMemory) -> (r: Option<PaneInfo>)
    ensures
        match r {
            Some(p) => memory@.last_notified == Some(
                AddressView { pane_id: p.pane_id@, label: p.label@ },
            ),
            None => memory@.last_notified is None,
        },
{
    match &memory.last_away_notification_source_agent {
        Some(a) => Some(
            PaneInfo {
                pane_id: String::from_str(a.pane_id()),
                label: String::from_str(a.label()),
            },
        ),
        None => None,
    }
}

/// Empties both slots.
pub fn clear_routing_state(memory: &mut RoutingMemory)
    ensures
        final(memory)@.last_routed is None,
        final(memory)@.last_notified is None,
{
    memory.last_routed_agent = None;
    memory.last_away_notification_source_agent = None;
}

/// A reply split into its tag and its body. A reply has a tag where it
/// begins with `[` and holds a `]`: the tag is what stands between the two,
/// the body what follows, trimmed. Any other reply is all body, unchanged.
pub open spec fn parse_tag_spec(text: Seq<char>) -> (Option<Seq<char>>, Seq<char>) {
    if text.len() > 0 && text[0] == '[' {
        match index_from(text, ']', 1) {
            Some(end) => (Some(text.subrange(1, end)), trim(text.skip(end + 1))),
            None => (None, text),
        }
    } else {
        (None, text)
    }
}

/// The text of a string that may be absent.
pub open spec fn text_view(s: Option<&str>) -> Option<Seq<char>> {
    match s {
        Some(s) => Some(s@),
        None => None,
    }
}

/// Splits a reply into its tag, if it has one, and its body.
pub fn parse_tag(text: &str) -> (r: (Option<&str>, &str))
    ensures
        (text_view(r.0), r.1@) == parse_tag_spec(text@),
{
    let v = chars_of(text);
    let n = v.len();
    if n == 0 || v[0] != '[' {
        return (None, text);
    }
    assert(v@.take(n as int) =~= v@);
    match find_char(&v, ']', 1, n) {
        None => (None, text),
        Some(end) => {
            let tag = text.substring_char(1, end);
            let (a, b) = trim_at(&v, end + 1, n);
            assert(v@.skip(end + 1) =~= v@.subrange(end + 1, n as int));
            let body = text.substring_char(a, b);
            (Some(tag), body)
        },
    }
}

/// What a session is looked for by.
pub enum Criterion {
    /// Its label is this text, to the letter.
    Label(Seq<char>),
    /// Its label, in lower case, holds this text.
    LabelContains(Seq<char>),
    /// Its identifier is this text.
    Target(Seq<char>),
    /// Its label is this text, or one holds the other when case is ignored.
    Answer(Seq<char>),
}

/// Whether the session `p` is one that `c` looks for.
pub open spec fn meets(p: AddressView, c: Criterion) -> bool {
    match c {
        Criterion::Label(t) => p.label == t,
        Criterion::LabelContains(t) => contains(lowercase(p.label), t),
        Criterion::Target(id) => p.pane_id == id,
        Criterion::Answer(a) => p.label == a || contains(lowercase(a), lowercase(p.label))
            || contains(lowercase(p.label), lowercase(a)),
    }
}

/// The first session at or after position `from` that `c` looks for.
pub open spec fn first_pane(panes: Seq<AddressView>, c: Criterion, from: int) -> Option<int>
    decreases panes.len() - from,
{
    if from < 0 || from >= panes.len() {
        None
    } else if meets(panes[from], c) {
        Some(from)
    } else {
        first_pane(panes, c, from + 1)
    }
}

/// What `first_pane` finds is the first session that meets the criterion,
/// and it finds nothing only where none does.
pub proof fn lemma_first_pane(panes: Seq<AddressView>, c: Criterion, from: int)
    requires
        0 <= from,
    ensures
        match first_pane(panes, c, from) {
            Some(i) => from <= i < panes.len() && meets(panes[i], c) && forall|j: int|
                from <= j < i ==> !meets(#[trigger] panes[j], c),
            None => forall|j: int| from <= j < panes.len() ==> !meets(#[trigger] panes[j], c),
        },
    decreases panes.len() - from,
{
    if from < panes.len() && !meets(panes[from], c) {
        lemma_first_pane(panes, c, from + 1);
    }
}

/// A criterion as the search itself holds it.
pub enum Want<'a> {
    Label(&'a str),
    LabelContains(&'a str),
    Target(&'a str),
    Answer(&'a str),
}

impl<'a> View for Want<'a> {
    type V = Criterion;

    open spec fn view(&self) -> Criterion {
        match self {
            Want::Label(t) => Criterion::Label(t@),
            Want::LabelContains(t) => Criterion::LabelContains(t@),
            Want::Target(t) => Criterion::Target(t@),
            Want::Answer(t) => Criterion::Answer(t@),
        }
    }
}

/// Whether `hay`, in lower case, holds `needle` as it is.
fn lower_contains(hay: &str, needle: &Vec<char>) -> (b: bool)
    ensures
        b == contains(lowercase(hay@), needle@),
{
    let lower = hay.to_lowercase();
    let h = chars_of(lower.as_str());
    contains_in(&h, needle)
}

/// Whether the session `p` is one that `want` looks for.
pub fn meets_want(p: &AgentAddress, want: &Want<'_>) -> (b: bool)
    ensures
        b == meets(p@, want@),
{
    match want {
        Want::Label(t) => str_eq(p.label(), t),
        Want::LabelContains(t) => {
            let needle = chars_of(t);
            lower_contains(p.label(), &needle)
        },
        Want::Target(id) => str_eq(p.pane_id(), id),
        Want::Answer(a) => {
            if str_eq(p.label(), a) {
                return true;
            }
            let label = chars_of(p.label().to_lowercase().as_str());
            let answer = chars_of(a.to_lowercase().as_str());
            contains_in(&answer, &label) || contains_in(&label, &answer)
        },
    }
}

/// The first session of `panes` that `want` looks for.
pub fn find_pane(panes: &[AgentAddress], want: &Want<'_>) -> (r: Option<usize>)
    ensures
        match r {
            Some(i) => first_pane(addresses(panes@), want@, 0) == Some(i as int) && i
                < panes.len(),
            None => first_pane(addresses(panes@), want@, 0) is None,
        },
{
    let mut i: usize = 0;
    while i < panes.len()
        invariant
            i <= panes.len(),
            first_pane(addresses(panes@), want@, i as int) == first_pane(
                addresses(panes@),
                want@,
                0,
            ),
        decreases panes.len() - i,
    {
        if meets_want(&panes[i], want) {
            return Some(i);
        }
        i += 1;
    }
    None
}

/// What the classifier said: the label it named and the body it cleaned.
/// It said nothing where its output is blank or the word `none`. The label
/// stands on the first line, after `LINE1:` and within quotes at most; the
/// body on the second, after `LINE2:`. Where the second line is missing, the
/// body stays as it was.
pub open spec fn classifier_reply(output: Seq<char>, body: Seq<char>) -> Option<
    (Seq<char>, Seq<char>),
> {
    let out = trim(output);
    if out.len() == 0 || lowercase(out) == "none"@ {
        None
    } else {
        let all = lines(out);
        let answer = trim_char(
            trim_char(trim(trim_start_matches(trim(all[0]), "LINE1:"@)), '"'),
            '\'',
        );
        let cleaned = if all.len() > 1 {
            trim(trim_start_matches(trim(all[1]), "LINE2:"@))
        } else {
            body
        };
        Some((answer, cleaned))
    }
}

/// The session that the classifier chose among `panes`, with the body it
/// cleaned. With a single session or none there is nothing to choose from.
/// An output that is missing, says nothing, or names no live session is no
/// opinion.
pub open spec fn semantic_spec(
    body: Seq<char>,
    panes: Seq<AddressView>,
    output: Option<Seq<char>>,
) -> Option<(int, Seq<char>)> {
    if panes.len() <= 1 {
        None
    } else {
        match output {
            None => None,
            Some(out) => match classifier_reply(out, body) {
                None => None,
                Some((answer, cleaned)) => match first_pane(panes, Criterion::Answer(answer), 0) {
                    Some(i) => Some((i, cleaned)),
                    None => None,
                },
            },
        }
    }
}

/// Reads the classifier's output: the label it named and the body it
/// cleaned, if it said anything.
fn read_classifier(output: &str, body: &str) -> (r: Option<(String, String)>)
    ensures
        match r {
            Some((answer, cleaned)) => classifier_reply(output@, body@) == Some(
                (answer@, cleaned@),
            ),
            None => classifier_reply(output@, body@) is None,
        },
{
    let out = trim_vec(&chars_of(output));
    if out.len() == 0 {
        return None;
    }
    let lower = lowercase_vec(&out);
    if chars_eq(&lower, &chars_of("none")) {
        return None;
    }
    proof {
        lemma_lines_nonempty(out@);
    }
    let ranges = line_ranges(&out);
    assert(cut(out@, ranges@).len() == ranges.len());
    let (a0, b0) = ranges[0];
    assert(cut(out@, ranges@)[0] == out@.subrange(a0 as int, b0 as int));
    let first = trim_vec(&copy_range(&out, a0, b0));
    let named = trim_vec(&trim_start_matches_vec(&first, &chars_of("LINE1:")));
    let answer = trim_char_vec(&trim_char_vec(&named, '"'), '\'');
    let cleaned = if ranges.len() > 1 {
        let (a1, b1) = ranges[1];
        assert(cut(out@, ranges@)[1] == out@.subrange(a1 as int, b1 as int));
        let second = trim_vec(&copy_range(&out, a1, b1));
        string_of(&trim_vec(&trim_start_matches_vec(&second, &chars_of("LINE2:"))))
    } else {
        String::from_str(body)
    };
    Some((string_of(&answer), cleaned))
}

/// The session that the classifier chose among `panes` for a reply without a
/// tag, and the body it cleaned. `output` is what the classifier printed, or
/// `None` where it could not be asked or failed.
pub fn semantic_resolve(body: &str, panes: &[AgentAddress], output: Option<&str>) -> (r: Option<
    (usize, String),
>)
    ensures
        match r {
            Some((i, cleaned)) => semantic_spec(body@, addresses(panes@), text_view(output))
                == Some((i as int, cleaned@)) && i < panes.len(),
            None => semantic_spec(body@, addresses(panes@), text_view(output)) is None,
        },
{
    if panes.len() <= 1 {
        return None;
    }
    let out = match output {
        Some(out) => out,
        None => {
            return None;
        },
    };
    match read_classifier(out, body) {
        None => None,
        Some((answer, cleaned)) => match find_pane(panes, &Want::Answer(answer.as_str())) {
            Some(i) => Some((i, cleaned)),
            None => None,
        },
    }
}

/// The part of a label that marks the session to fall back on.
pub const DEFAULT_AGENT_NAME: &'static str = "my-agent";

/// The session that a tag names: the first whose label is the tag, or else
/// the first whose label holds the tag when case is ignored.
pub open spec fn resolve_tag(tag: Seq<char>, panes: Seq<AddressView>) -> Option<int> {
    match first_pane(panes, Criterion::Label(tag), 0) {
        Some(i) => Some(i),
        None => first_pane(panes, Criterion::LabelContains(lowercase(tag)), 0),
    }
}

/// The live session that a slot of the memory names, if it names one.
pub open spec fn live_slot(slot: Option<AddressView>, panes: Seq<AddressView>) -> Option<int> {
    match slot {
        Some(a) => first_pane(panes, Criterion::Target(a.pane_id), 0),
        None => None,
    }
}

/// The session for a reply that names none: the one routed to last, if it
/// lives; else the one notified last, if it lives; else the first whose
/// label holds the default name.
pub open spec fn resolve_fallback(panes: Seq<AddressView>, memory: MemoryView) -> Option<int> {
    match live_slot(memory.last_routed, panes) {
        Some(i) => Some(i),
        None => match live_slot(memory.last_notified, panes) {
            Some(i) => Some(i),
            None => first_pane(panes, Criterion::LabelContains(DEFAULT_AGENT_NAME@), 0),
        },
    }
}

/// A choice paired with the body that goes with it.
pub open spec fn with_body(choice: Option<int>, body: Seq<char>) -> Option<(int, Seq<char>)> {
    match choice {
        Some(i) => Some((i, body)),
        None => None,
    }
}

/// The session that a reply is for, as a position in `panes`, and the body
/// to hand to it. A tag decides alone: where it names no session, there is
/// none. Without a tag the classifier's opinion comes first, then the
/// memory, then the default name.
pub open spec fn resolve_spec(
    tag: Option<Seq<char>>,
    body: Seq<char>,
    panes: Seq<AddressView>,
    memory: MemoryView,
    output: Option<Seq<char>>,
) -> Option<(int, Seq<char>)> {
    match tag {
        Some(t) => with_body(resolve_tag(t, panes), body),
        None => match semantic_spec(body, panes, output) {
            Some(r) => Some(r),
            None => with_body(resolve_fallback(panes, memory), body),
        },
    }
}

/// The live session that a slot of the memory names.
fn find_slot(slot: &Option<AgentAddress>, panes: &[AgentAddress]) -> (r: Option<usize>)
    ensures
        match r {
            Some(i) => live_slot(address_view(*slot), addresses(panes@)) == Some(i as int) && i
                < panes.len(),
            None => live_slot(address_view(*slot), addresses(panes@)) is None,
        },
{
    match slot {
        Some(a) => find_pane(panes, &Want::Target(a.pane_id())),
        None => None,
    }
}

/// The position in `panes` of the session that a reply is for, and the body
/// to hand to it.
pub fn resolve_index(
    tag: Option<&str>,
    body: &str,
    panes: &[AgentAddress],
    memory: &RoutingMemory,
    classifier_output: Option<&str>,
) -> (r: Option<(usize, String)>)
    ensures
        match r {
            Some((i, cleaned)) => resolve_spec(
                text_view(tag),
                body@,
                addresses(panes@),
                memory@,
                text_view(classifier_output),
            ) == Some((i as int, cleaned@)) && i < panes.len(),
            None => resolve_spec(
                text_view(tag),
                body@,
                addresses(panes@),
                memory@,
                text_view(classifier_output),
            ) is None,
        },
{
    if let Some(t) = tag {
        if let Some(i) = find_pane(panes, &Want::Label(t)) {
            return Some((i, String::from_str(body)));
        }
        let lower = t.to_lowercase();
        return match find_pane(panes, &Want::LabelContains(lower.as_str())) {
            Some(i) => Some((i, String::from_str(body))),
            None => None,
        };
    }
    if let Some(hit) = semantic_resolve(body, panes, classifier_output) {
        return Some(hit);
    }
    if let Some(i) = find_slot(&memory.last_routed_agent, panes) {
        return Some((i, String::from_str(body)));
    }
    if let Some(i) = find_slot(&memory.last_away_notification_source_agent, panes) {
        return Some((i, String::from_str(body)));
    }
    match find_pane(panes, &Want::LabelContains(DEFAULT_AGENT_NAME)) {
        Some(i) => Some((i, String::from_str(body))),
        None => None,
    }
}

/// The session that a reply is for, and the body to hand to it.
///
/// `tag` and `body` are the two parts of the reply, `panes` the live
/// sessions. `classifier_output` is what the classifier printed when it was
/// asked, or `None`; it is read only for a reply without a tag and with more
/// than one live session.
pub fn resolve_pane<'a>(
    tag: Option<&str>,
    body: &str,
    panes: &'a [AgentAddress],
    memory: &RoutingMemory,
    classifier_output: Option<&str>,
) -> (r: Option<(&'a AgentAddress, String)>)
    ensures
        match resolve_spec(
            text_view(tag),
            body@,
            addresses(panes@),
            memory@,
            text_view(classifier_output),
        ) {
            Some((i, cleaned)) => r is Some && 0 <= i < panes.len() && *r.unwrap().0 == panes@[i]
                && r.unwrap().1@ == cleaned,
            None => r is None,
        },
{
    match resolve_index(tag, body, panes, memory, classifier_output) {
        Some((i, cleaned)) => Some((&panes[i], cleaned)),
        None => None,
    }
}

/// A tag that is the label of a live session resolves to the first session
/// with that label, and the body is handed on unchanged, whatever the
/// classifier said and whatever the memory holds.
pub proof fn law_exact_tag_resolves(
    tag: Seq<char>,
    body: Seq<char>,
    panes: Seq<AddressView>,
    memory: MemoryView,
    output: Option<Seq<char>>,
    i: int,
)
    requires
        0 <= i < panes.len(),
        panes[i].label == tag,
    ensures
        resolve_spec(Some(tag), body, panes, memory, output) matches Some((k, b)) && 0 <= k <= i
            && panes[k].label == tag && b == body,
{
    lemma_first_pane(panes, Criterion::Label(tag), 0);
}

/// A tag that is no session's label, and that no label holds when case is
/// ignored, resolves to nothing: neither the classifier nor the memory nor
/// the default name is consulted.
pub proof fn law_unmatched_tag_fails(
    tag: Seq<char>,
    body: Seq<char>,
    panes: Seq<AddressView>,
    memory: MemoryView,
    output: Option<Seq<char>>,
)
    requires
        forall|j: int|
            0 <= j < panes.len() ==> (#[trigger] panes[j]).label != tag && !contains(
                lowercase(panes[j].label),
                lowercase(tag),
            ),
    ensures
        resolve_spec(Some(tag), body, panes, memory, output) is None,
{
    lemma_first_pane(panes, Criterion::Label(tag), 0);
    lemma_first_pane(panes, Criterion::LabelContains(lowercase(tag)), 0);
}

/// With a single live session, or none, what the classifier printed makes no
/// difference to a reply without a tag.
pub proof fn law_single_session_ignores_classifier(
    body: Seq<char>,
    panes: Seq<AddressView>,
    memory: MemoryView,
    first: Option<Seq<char>>,
    second: Option<Seq<char>>,
)
    requires
        panes.len() <= 1,
    ensures
        resolve_spec(None, body, panes, memory, first) == resolve_spec(
            None,
            body,
            panes,
            memory,
            second,
        ),
{
}

/// Where the classifier has no opinion and the session routed to last still
/// lives, a reply without a tag goes to that session, with its body
/// unchanged, even if another session bears the default name.
pub proof fn law_last_routed_beats_default(
    body: Seq<char>,
    panes: Seq<AddressView>,
    memory: MemoryView,
    output: Option<Seq<char>>,
    i: int,
)
    requires
        semantic_spec(body, panes, output) is None,
        memory.last_routed is Some,
        0 <= i < panes.len(),
        same_target_spec(panes[i], memory.last_routed.unwrap()),
    ensures
        resolve_spec(None, body, panes, memory, output) matches Some((k, b)) && 0 <= k <= i
            && same_target_spec(panes[k], memory.last_routed.unwrap()) && b == body,
{
    lemma_first_pane(panes, Criterion::Target(memory.last_routed.unwrap().pane_id), 0);
}

/// Where the classifier has no opinion, no session was routed to or that one
/// is gone, and the session notified last still lives, a reply without a tag
/// goes to the session notified last, with its body unchanged, even if
/// another session bears the default name.
pub proof fn law_last_notified_beats_default(
    body: Seq<char>,
    panes: Seq<AddressView>,
    memory: MemoryView,
    output: Option<Seq<char>>,
    i: int,
)
    requires
        semantic_spec(body, panes, output) is None,
        memory.last_routed is None || forall|j: int|
            0 <= j < panes.len() ==> !same_target_spec(
                #[trigger] panes[j],
                memory.last_routed.unwrap(),
            ),
        memory.last_notified is Some,
        0 <= i < panes.len(),
        same_target_spec(panes[i], memory.last_notified.unwrap()),
    ensures
        resolve_spec(None, body, panes, memory, output) matches Some((k, b)) && 0 <= k <= i
            && same_target_spec(panes[k], memory.last_notified.unwrap()) && b == body,
{
    if memory.last_routed is Some {
        lemma_first_pane(panes, Criterion::Target(memory.last_routed.unwrap().pane_id), 0);
    }
    lemma_first_pane(panes, Criterion::Target(memory.last_notified.unwrap().pane_id), 0);
}

} // verus!
