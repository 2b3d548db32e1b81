//! Notifying the operator who is away, by text message.

use crate::inbound::directory::{AddressView, AgentAddress};
use crate::store::TurnCompleted;
use crate::text::{
    chars_of, extend_chars, remove_all, remove_all_vec, rfind_char, rindex_before, string_of,
    trim, trim_at, trim_start_matches, trim_start_matches_vec, trim_vec,
};
use crate::util::{
    ai_cli_args, ai_cli_command, sanitise_for_applescript, sanitised, Invocation, InvocationView,
};
use vstd::prelude::*;
use vstd::string::*;

verus! {

/// The mark that every notification begins with, so that the tailer can
/// tell the daemon's messages from the operator's.
pub const ROBOT: &'static str = "\u{1F916}";

/// The mark and the space that separate it from the message.
pub const ROBOT_PREFIX: &'static str = "\u{1F916} ";

/// The model that writes the summaries.
pub const SUMMARY_MODEL: &'static str = "sonnet";

/// The longest body of a notification, in characters.
pub const BODY_LIMIT: usize = 280;

/// One character as it stands within a string literal of a script: a
/// backslash and a double quote are each preceded by a backslash.
pub open spec fn escaped_char(c: char) -> Seq<char> {
    if c == '\\' {
        seq!['\\', '\\']
    } else if c == '"' {
        seq!['\\', '"']
    } else {
        seq![c]
    }
}

/// A text as it stands within a string literal of a script.
pub open spec fn escaped(s: Seq<char>) -> Seq<char>
    decreases s.len(),
{
    if s.len() == 0 {
        Seq::empty()
    } else {
        escaped(s.drop_last()) + escaped_char(s.last())
    }
}

/// The script that sends `text` to `recipient`: both are stripped of what
/// would break a string literal, then escaped.
pub open spec fn send_script(text: Seq<char>, recipient: Seq<char>) -> Seq<char> {
    "tell application \"Messages\" to send \""@ + escaped(sanitised(text)) + "\" to buddy \""@
        + escaped(sanitised(recipient)) + "\""@
}

/// The command that sends `text`, as it is, to `recipient`.
pub open spec fn send_spec(text: Seq<char>, recipient: Seq<char>) -> InvocationView {
    InvocationView { program: "osascript"@, args: seq!["-e"@, send_script(text, recipient)] }
}

/// Appends `s`, escaped for a string literal of a script, to `out`.
fn push_escaped(out: &mut String, s: &str)
    ensures
        final(out)@ == old(out)@ + escaped(s@),
{
    let v = chars_of(s);
    let mut i: usize = 0;
    assert(v@.take(0) =~= Seq::<char>::empty());
    assert(out@ =~= old(out)@ + escaped(v@.take(0)));
    while i < v.len()
        invariant
            i <= v.len(),
            out@ == old(out)@ + escaped(v@.take(i as int)),
        decreases v.len() - i,
    {
        let ghost before = out@;
        assert(v@.take(i + 1).drop_last() =~= v@.take(i as int));
        assert(v@.take(i + 1).last() == v@[i as int]);
        let c = v[i];
        if c == '\\' || c == '"' {
            out.push('\\');
        }
        out.push(c);
        assert(out@ =~= before + escaped_char(c));
        assert(out@ =~= old(out)@ + escaped(v@.take(i + 1)));
        i += 1;
    }
    assert(v@.take(v.len() as int) =~= v@);
}

/// The command that sends `text`, as it is, to `recipient`.
pub fn send_imessage_to(text: &str, recipient: &str) -> (c: Invocation)
    ensures
        c@ == send_spec(text@, recipient@),
{
    let safe_text = sanitise_for_applescript(text);
    let safe_recipient = sanitise_for_applescript(recipient);
    let mut script = String::from_str("tell application \"Messages\" to send \"");
    push_escaped(&mut script, safe_text.as_str());
    script.append("\" to buddy \"");
    push_escaped(&mut script, safe_recipient.as_str());
    script.append("\"");
    let mut args: Vec<String> = Vec::new();
    args.push(String::from_str("-e"));
    args.push(script);
    let c = Invocation { program: String::from_str("osascript"), args };
    assert(c@.args =~= send_spec(text@, recipient@).args);
    c
}

/// The command that sends the notification `text`, marked as the daemon's,
/// to `recipient`.
pub fn send_raw_imessage(text: &str, recipient: &str) -> (c: Invocation)
    ensures
        c@ == send_spec(ROBOT_PREFIX@ + text@, recipient@),
{
    let mut marked = String::from_str(ROBOT_PREFIX);
    marked.append(text);
    send_imessage_to(marked.as_str(), recipient)
}

/// The command that sends a confirmation or an error to the operator;
/// `None` where no recipient is configured.
pub fn send_imessage(msg: &str, recipient: Option<&str>) -> (r: Option<Invocation>)
    ensures
        match r {
            Some(c) => recipient is Some && c@ == send_spec(msg@, recipient.unwrap()@),
            None => recipient is None,
        },
{
    match recipient {
        Some(to) => Some(send_imessage_to(msg, to)),
        None => None,
    }
}

/// The query for the text of the last message that was sent in the
/// conversation `handle_id`.
pub open spec fn last_outgoing_sql(handle_id: i64) -> Seq<char> {
    "SELECT text FROM message WHERE handle_id = "@ + crate::text::decimal(handle_id as int)
        + " AND is_from_me = 1 ORDER BY ROWID DESC LIMIT 1;"@
}

/// The command that asks the log at `db_path` for the text of the last
/// message that was sent in the conversation `handle_id`.
pub fn last_outgoing_text(db_path: &str, handle_id: i64) -> (c: Invocation)
    ensures
        c@ == (InvocationView {
            program: "sqlite3"@,
            args: seq![db_path@, last_outgoing_sql(handle_id)],
        }),
{
    let mut sql: Vec<char> = chars_of("SELECT text FROM message WHERE handle_id = ");
    crate::text::push_decimal(&mut sql, handle_id);
    let tail = chars_of(" AND is_from_me = 1 ORDER BY ROWID DESC LIMIT 1;");
    extend_chars(&mut sql, &tail);
    let mut args: Vec<String> = Vec::new();
    args.push(String::from_str(db_path));
    args.push(string_of(&sql));
    let c = Invocation { program: String::from_str("sqlite3"), args };
    assert(c@.args =~= seq![db_path@, last_outgoing_sql(handle_id)]);
    c
}

/// A body split into what it states and the question it ends with. The
/// question is the sentence that holds the last question mark: it begins
/// after the last full stop before that mark. Both parts are trimmed. A body
/// without a question mark, or with nothing before the question, or with an
/// empty question, is not split.
pub open spec fn split_body_spec(body: Seq<char>) -> (Seq<char>, Option<Seq<char>>) {
    match rindex_before(body, '?', body.len() as int) {
        Some(q) => {
            let start = match rindex_before(body, '.', q) {
                Some(i) => i + 1,
                None => 0,
            };
            let question = trim(body.subrange(start, q + 1));
            let main = trim(body.take(start));
            if main.len() > 0 && question.len() > 0 {
                (main, Some(question))
            } else {
                (trim(body), None)
            }
        },
        None => (trim(body), None),
    }
}

/// Splits a body into what it states and the question it ends with.
pub fn split_body(body: &str) -> (r: (&str, Option<&str>))
    ensures
        (
            r.0@,
            match r.1 {
                Some(q) => Some(q@),
                None => None,
            },
        ) == split_body_spec(body@),
{
    let v = chars_of(body);
    let n = v.len();
    assert(v@.subrange(0, n as int) =~= v@);
    if let Some(q) = rfind_char(&v, '?', n) {
        let start = match rfind_char(&v, '.', q) {
            Some(i) => i + 1,
            None => 0,
        };
        let (qa, qb) = trim_at(&v, start, q + 1);
        let (ma, mb) = trim_at(&v, 0, start);
        assert(v@.take(start as int) =~= v@.subrange(0, start as int));
        if mb > ma && qb > qa {
            return (body.substring_char(ma, mb), Some(body.substring_char(qa, qb)));
        }
    }
    let (a, b) = trim_at(&v, 0, n);
    (body.substring_char(a, b), None)
}

/// A message cut to its first `BODY_LIMIT` characters, with every newline
/// turned into a space.
pub open spec fn truncate_body_spec(message: Seq<char>) -> Seq<char> {
    Seq::new(
        if message.len() < BODY_LIMIT {
            message.len()
        } else {
            BODY_LIMIT as nat
        },
        |i: int|
            if message[i] == '\n' {
                ' '
            } else {
                message[i]
            },
    )
}

/// Cuts a message to the length of a notification and puts it on one line.
pub fn truncate_body(assistant_message: &str) -> (r: String)
    ensures
        r@ == truncate_body_spec(assistant_message@),
{
    let v = chars_of(assistant_message);
    let end = if v.len() < BODY_LIMIT {
        v.len()
    } else {
        BODY_LIMIT
    };
    let mut out: Vec<char> = Vec::new();
    let mut i: usize = 0;
    while i < end
        invariant
            i <= end <= v.len(),
            out@.len() == i,
            forall|j: int|
                0 <= j < i ==> out@[j] == (if v@[j] == '\n' {
                    ' '
                } else {
                    v@[j]
                }),
        decreases end - i,
    {
        let c = v[i];
        out.push(
            if c == '\n' {
                ' '
            } else {
                c
            },
        );
        i += 1;
    }
    assert(out@ =~= truncate_body_spec(assistant_message@));
    string_of(&out)
}

/// The tag that closes the assistant's message within the prompt.
pub const MESSAGE_END: &'static str = "</message>";

/// The tag that closes the operator's request within the prompt.
pub const PROMPT_END: &'static str = "</prompt>";

/// How the prompt for a summary begins; the operator's request follows.
pub const SUMMARY_HEAD: &'static str =
    "You are writing a phone notification summary.\n\nUSER ASKED:\n<prompt>\n";

/// What stands between the request and the assistant's message.
pub const SUMMARY_MIDDLE: &'static str = "\n</prompt>\n\nASSISTANT REPLIED:\n<message>\n";

/// How the prompt for a summary ends.
pub const SUMMARY_TAIL: &'static str =
    "\n</message>\n\nWrite 2-3 plain sentences summarising what was done and the outcome.\nPreserve any question the assistant asked.\nNo code, no markdown, no jargon. Keep it under 280 characters.";

/// The prompt that asks for a summary of a finished turn. Neither the
/// request nor the message can close its own section or the other's: every
/// closing tag is taken out of both.
pub open spec fn summary_prompt_spec(assistant_message: Seq<char>, last_user_prompt: Seq<char>) -> Seq<
    char,
> {
    SUMMARY_HEAD@ + remove_all(remove_all(last_user_prompt, PROMPT_END@), MESSAGE_END@)
        + SUMMARY_MIDDLE@ + remove_all(remove_all(assistant_message, MESSAGE_END@), PROMPT_END@)
        + SUMMARY_TAIL@
}

/// The prompt that asks for a summary of a finished turn.
pub fn summary_prompt(assistant_message: &str, last_user_prompt: &str) -> (prompt: String)
    ensures
        prompt@ == summary_prompt_spec(assistant_message@, last_user_prompt@),
{
    let message_end = chars_of(MESSAGE_END);
    let prompt_end = chars_of(PROMPT_END);
    let safe_msg = remove_all_vec(
        &remove_all_vec(&chars_of(assistant_message), &message_end),
        &prompt_end,
    );
    let safe_prompt = remove_all_vec(
        &remove_all_vec(&chars_of(last_user_prompt), &prompt_end),
        &message_end,
    );
    let mut prompt = String::from_str(SUMMARY_HEAD);
    prompt.append(string_of(&safe_prompt).as_str());
    prompt.append(SUMMARY_MIDDLE);
    prompt.append(string_of(&safe_msg).as_str());
    prompt.append(SUMMARY_TAIL);
    prompt
}

/// The command that asks the assistant at `cli` to summarise a finished
/// turn.
pub fn summary_command(cli: &str, assistant_message: &str, last_user_prompt: &str) -> (c:
    Invocation)
    ensures
        c@ == (InvocationView {
            program: cli@,
            args: ai_cli_args(
                summary_prompt_spec(assistant_message@, last_user_prompt@),
                SUMMARY_MODEL@,
            ),
        }),
{
    let prompt = summary_prompt(assistant_message, last_user_prompt);
    ai_cli_command(cli, prompt.as_str(), SUMMARY_MODEL)
}

/// The body of a notification: the assistant's summary where it wrote one,
/// else the message itself; cut and on one line either way.
pub open spec fn summarise_spec(assistant_message: Seq<char>, cli_output: Option<Seq<char>>) -> Seq<
    char,
> {
    match cli_output {
        Some(out) => if trim(out).len() == 0 {
            truncate_body_spec(assistant_message)
        } else {
            truncate_body_spec(trim(out))
        },
        None => truncate_body_spec(assistant_message),
    }
}

/// The body of the notification for a finished turn. `cli_output` is what
/// the assistant printed when asked for a summary, or `None` where it is not
/// set up, could not be run or failed.
pub fn summarise_for_imessage(assistant_message: &str, cli_output: Option<&str>) -> (r: String)
    ensures
        r@ == summarise_spec(
            assistant_message@,
            match cli_output {
                Some(o) => Some(o@),
                None => None,
            },
        ),
{
    match cli_output {
        None => truncate_body(assistant_message),
        Some(out) => {
            let summary = trim_vec(&chars_of(out));
            if summary.len() == 0 {
                truncate_body(assistant_message)
            } else {
                truncate_body(string_of(&summary).as_str())
            }
        },
    }
}

/// The notification for a finished turn: the session's label in brackets,
/// what the body states, and the context in parentheses.
pub open spec fn away_message(label: Seq<char>, main_body: Seq<char>, context: Seq<char>) -> Seq<
    char,
> {
    "["@ + label + "] "@ + trim(main_body) + " ("@ + context + ")"@
}

/// Whether a notification repeats the message that was sent last: the two
/// are the same once the daemon's mark and the white space around them are
/// set aside.
pub open spec fn is_duplicate(last: Option<Seq<char>>, message: Seq<char>) -> bool {
    match last {
        Some(l) => trim(trim_start_matches(trim(l), ROBOT@)) == trim(message),
        None => false,
    }
}

/// What is sent to the operator, and the session that is named as its
/// source.
pub struct DeliveryView {
    pub commands: Seq<InvocationView>,
    pub source: Option<AddressView>,
}

/// What is sent for a finished turn. Nothing is sent without a recipient,
/// nor where the notification repeats the last message. Else the
/// notification goes out, followed by the question that the body ends with,
/// if there is one, and the session is named as the source.
pub open spec fn notify_away_spec(
    label: Seq<char>,
    pane_id: Seq<char>,
    context: Seq<char>,
    recipient: Option<Seq<char>>,
    body: Seq<char>,
    last_outgoing: Option<Seq<char>>,
) -> DeliveryView {
    let (main_body, question) = split_body_spec(body);
    let message = away_message(label, main_body, context);
    if recipient is None || is_duplicate(last_outgoing, message) {
        DeliveryView { commands: Seq::empty(), source: None }
    } else {
        let to = recipient.unwrap();
        DeliveryView {
            commands: match question {
                Some(q) => seq![
                    send_spec(ROBOT_PREFIX@ + message, to),
                    send_spec(ROBOT_PREFIX@ + q, to),
                ],
                None => seq![send_spec(ROBOT_PREFIX@ + message, to)],
            },
            source: Some(AddressView { pane_id, label }),
        }
    }
}

/// What to send to the operator who is away about a finished turn, and the
/// session to remember as the source of the notification.
///
/// `body` is the body of the notification, `last_outgoing` the text of the
/// message sent last, where the log could tell.
pub fn notify_away(
    turn: &TurnCompleted,
    recipient: Option<&str>,
    body: &str,
    last_outgoing: Option<&str>,
) -> (r: (Vec<Invocation>, Option<AgentAddress>))
    ensures
        (DeliveryView {
            commands: r.0@.map_values(|c: Invocation| c@),
            source: match r.1 {
                Some(a) => Some(a@),
                None => None,
            },
        }) == notify_away_spec(
            turn.pane_label@,
            turn.pane_id@,
            turn.main_context@,
            match recipient {
                Some(s) => Some(s@),
                None => None,
            },
            body@,
            match last_outgoing {
                Some(s) => Some(s@),
                None => None,
            },
        ),
{
    let mut commands: Vec<Invocation> = Vec::new();
    let (main_body, question) = split_body(body);
    let mut message = String::from_str("[");
    message.append(turn.pane_label.as_str());
    message.append("] ");
    message.append(string_of(&trim_vec(&chars_of(main_body))).as_str());
    message.append(" (");
    message.append(turn.main_context.as_str());
    message.append(")");
    let to = match recipient {
        Some(to) => to,
        None => {
            assert(commands@.map_values(|c: Invocation| c@) =~= Seq::<InvocationView>::empty());
            return (commands, None);
        },
    };
    let repeated = match last_outgoing {
        Some(last) => {
            let bare = trim_vec(
                &trim_start_matches_vec(&trim_vec(&chars_of(last)), &chars_of(ROBOT)),
            );
            crate::text::chars_eq(&bare, &trim_vec(&chars_of(message.as_str())))
        },
        None => false,
    };
    if repeated {
        assert(commands@.map_values(|c: Invocation| c@) =~= Seq::<InvocationView>::empty());
        return (commands, None);
    }
    let first = send_raw_imessage(message.as_str(), to);
    let ghost first_view = first@;
    commands.push(first);
    match question {
        Some(q) => {
            let second = send_raw_imessage(q, to);
            let ghost second_view = second@;
            commands.push(second);
            assert(commands@.map_values(|c: Invocation| c@) =~= seq![first_view, second_view]);
        },
        None => {
            assert(commands@.map_values(|c: Invocation| c@) =~= seq![first_view]);
        },
    }
    let source = AgentAddress::TmuxPane {
        pane_id: turn.pane_id.clone(),
        label: turn.pane_label.clone(),
    };
    (commands, Some(source))
}

} // verus!
