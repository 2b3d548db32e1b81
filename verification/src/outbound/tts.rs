//! Notifying the operator who is at the desk, by speech.

use crate::settings::TtsSettings;
use crate::store::TurnCompleted;
use crate::text::{
    chars_eq, chars_of, contains, contains_in, copy_range, cut, extend_chars, find_from, find_in,
    join, lemma_find_from, lemma_word_start, line_ranges, lines, push_decimal, ranges_within,
    skip_whitespace, string_of, take_chars, trim, trim_char, trim_char_vec, trim_vec, word_start,
};
use crate::util::{texts, Invocation, InvocationView};
use vstd::prelude::*;
use vstd::string::*;

verus! {

/// The tag that opens a block of reasoning in a model's output.
pub const THINK_OPEN: &'static str = "<think>";

/// The tag that closes a block of reasoning.
pub const THINK_CLOSE: &'static str = "</think>";

/// The line that the local model prints before and after its answer.
pub const MARKER: &'static str = "==========";

/// What is said where the local model gave no summary.
pub const WORK_COMPLETE: &'static str = "Work complete";

/// The instruction that the local model works under.
pub const SHORT_SYSTEM_PROMPT: &'static str =
    "You are a notification assistant. Given a user's last request, write ONLY a brief 3-8 word summary of what was completed. Do not include any thinking, explanations, or extra text. Output format: Just the summary message.";

/// How the prompt for the local model begins; the operator's request
/// follows.
pub const SHORT_PROMPT_HEAD: &'static str = "User's last request: ";

/// How the prompt for the local model ends.
pub const SHORT_PROMPT_TAIL: &'static str = "\n\nWrite a 3-8 word summary of what was done:";

/// The number of tokens that the local model may print.
pub const SHORT_MAX_TOKENS: u32 = 20;

/// The number of characters of the operator's request that the local model
/// is shown.
pub const REQUEST_LIMIT: usize = 500;

/// The number of characters that are kept of an answer that came without
/// markers.
pub const BARE_ANSWER_LIMIT: usize = 200;

/// `s` from position `from` on, without its blocks of reasoning, before the
/// final trim. A block runs from an opening tag through the first closing
/// tag that is found from `from` on, and the white space after it. A block
/// that is never closed runs to the end.
pub open spec fn strip_think_from(s: Seq<char>, from: int) -> Seq<char>
    decreases s.len() - from,
    via strip_think_decreases
{
    if from < 0 || from > s.len() {
        Seq::empty()
    } else {
        match find_from(s, THINK_OPEN@, from) {
            None => s.skip(from),
            Some(start) => s.subrange(from, start) + (match find_from(s, THINK_CLOSE@, from) {
                None => Seq::empty(),
                Some(end) => strip_think_from(s, word_start(s, end + THINK_CLOSE@.len())),
            }),
        }
    }
}

#[via_fn]
proof fn strip_think_decreases(s: Seq<char>, from: int) {
    reveal_strlit("</think>");
    if 0 <= from <= s.len() {
        lemma_find_from(s, THINK_CLOSE@, from);
        match find_from(s, THINK_CLOSE@, from) {
            Some(end) => {
                lemma_word_start(s, end + THINK_CLOSE@.len());
            },
            None => {},
        }
    }
}

/// `s` without its blocks of reasoning, trimmed.
pub open spec fn strip_think_spec(s: Seq<char>) -> Seq<char> {
    trim(strip_think_from(s, 0))
}

/// The output of a model without its blocks of reasoning, on a list of
/// characters.
fn strip_think_vec(v: &Vec<char>) -> (r: Vec<char>)
    ensures
        r@ == strip_think_spec(v@),
{
    let n = v.len();
    let open = chars_of(THINK_OPEN);
    let close = chars_of(THINK_CLOSE);
    proof {
        reveal_strlit("</think>");
    }
    let mut out: Vec<char> = Vec::new();
    let mut k: usize = 0;
    assert(out@ + strip_think_from(v@, 0) =~= strip_think_from(v@, 0));
    loop
        invariant
            n == v.len(),
            k <= n,
            open@ == THINK_OPEN@,
            close@ == THINK_CLOSE@,
            close@.len() == 8,
            out@ + strip_think_from(v@, k as int) == strip_think_from(v@, 0),
        decreases n - k,
    {
        let ghost before = out@;
        match find_in(v, &open, k) {
            None => {
                assert(v@.skip(k as int) =~= v@.subrange(k as int, n as int));
                extend_chars(&mut out, &copy_range(v, k, n));
                assert(out@ =~= strip_think_from(v@, 0));
                return trim_vec(&out);
            },
            Some(start) => {
                extend_chars(&mut out, &copy_range(v, k, start));
                match find_in(v, &close, k) {
                    None => {
                        assert(out@ + Seq::<char>::empty() =~= out@);
                        assert(before + (v@.subrange(k as int, start as int) + Seq::<
                            char,
                        >::empty()) =~= out@);
                        return trim_vec(&out);
                    },
                    Some(end) => {
                        let next = skip_whitespace(v, end + 8);
                        assert(out@ + strip_think_from(v@, next as int) =~= before + (v@.subrange(
                            k as int,
                            start as int,
                        ) + strip_think_from(v@, next as int)));
                        k = next;
                    },
                }
            },
        }
    }
    trim_vec(&out)
}

/// Removes the blocks of reasoning that some models print before their
/// answer, and trims what is left.
pub fn regex_strip_think(text: &str) -> (r: String)
    ensures
        r@ == strip_think_spec(text@),
{
    string_of(&strip_think_vec(&chars_of(text)))
}

/// The lines that stand between the first and the second marker line, each
/// trimmed. `inside` says whether the first marker has been passed.
pub open spec fn marked_lines(all: Seq<Seq<char>>, from: int, inside: bool) -> Seq<Seq<char>>
    decreases all.len() - from,
{
    if from < 0 || from >= all.len() {
        Seq::empty()
    } else if trim(all[from]) == MARKER@ {
        if inside {
            Seq::empty()
        } else {
            marked_lines(all, from + 1, true)
        }
    } else if inside {
        seq![trim(all[from])] + marked_lines(all, from + 1, true)
    } else {
        marked_lines(all, from + 1, false)
    }
}

/// A text without the quotes around it, double ones first.
pub open spec fn unquoted(s: Seq<char>) -> Seq<char> {
    trim_char(trim_char(s, '"'), '\'')
}

/// A text, unless it is empty.
pub open spec fn non_empty(s: Seq<char>) -> Option<Seq<char>> {
    if s.len() == 0 {
        None
    } else {
        Some(s)
    }
}

/// The answer in the output of the local model. Where the output holds a
/// marker, the answer is what stands between the first two marker lines,
/// joined to one line, without quotes and reasoning. Else it is the output
/// without quotes and reasoning, cut to its first characters. An empty
/// answer is none.
pub open spec fn local_model_reply_spec(output: Seq<char>) -> Option<Seq<char>> {
    let out = trim(output);
    if out.len() == 0 {
        None
    } else if contains(out, MARKER@) {
        non_empty(
            strip_think_spec(unquoted(trim(join(marked_lines(lines(out), 0, false), " "@)))),
        )
    } else {
        let text = strip_think_spec(unquoted(out));
        if text.len() == 0 {
            None
        } else {
            Some(
                text.take(
                    if text.len() < BARE_ANSWER_LIMIT {
                        text.len() as int
                    } else {
                        BARE_ANSWER_LIMIT as int
                    },
                ),
            )
        }
    }
}

/// The lines between the first two marker lines of `out`, joined by spaces.
fn joined_marked_lines(out: &Vec<char>) -> (r: Vec<char>)
    ensures
        r@ == join(marked_lines(lines(out@), 0, false), " "@),
{
    let ranges = line_ranges(out);
    let marker = chars_of(MARKER);
    let ghost all = lines(out@);
    let ghost mut done: Seq<Seq<char>> = Seq::empty();
    let mut r: Vec<char> = Vec::new();
    let mut inside = false;
    let mut any = false;
    let mut k: usize = 0;
    proof {
        reveal_strlit(" ");
        assert(done + marked_lines(all, 0, false) =~= marked_lines(all, 0, false));
    }
    while k < ranges.len()
        invariant
            k <= ranges.len(),
            all == lines(out@),
            cut(out@, ranges@) == all,
            ranges_within(ranges@, out.len() as int),
            marker@ == MARKER@,
            " "@ == seq![' '],
            done + marked_lines(all, k as int, inside) == marked_lines(all, 0, false),
            r@ == join(done, " "@),
            any == (done.len() > 0),
        decreases ranges.len() - k,
    {
        let (a, b) = ranges[k];
        assert(cut(out@, ranges@)[k as int] == out@.subrange(a as int, b as int));
        let line = trim_vec(&copy_range(out, a, b));
        if chars_eq(&line, &marker) {
            if inside {
                assert(done + Seq::<Seq<char>>::empty() =~= done);
                return r;
            }
            inside = true;
        } else if inside {
            let ghost next = done.push(line@);
            let ghost before = r@;
            assert(next.drop_last() =~= done);
            assert(next + marked_lines(all, k + 1, true) =~= done + (seq![line@] + marked_lines(
                all,
                k + 1,
                true,
            )));
            if any {
                r.push(' ');
                proof {
                    assert(before.push(' ') =~= before + " "@);
                }
            }
            extend_chars(&mut r, &line);
            any = true;
            proof {
                if done.len() == 1 {
                    assert(join(done, " "@) == done[0]);
                }
                assert(r@ =~= join(next, " "@));
                done = next;
            }
        }
        k += 1;
    }
    assert(done + Seq::<Seq<char>>::empty() =~= done);
    r
}

/// The answer in the output of the local model, if it gave one.
pub fn local_model_reply(output: &str) -> (r: Option<String>)
    ensures
        match r {
            Some(s) => local_model_reply_spec(output@) == Some(s@),
            None => local_model_reply_spec(output@) is None,
        },
{
    let out = trim_vec(&chars_of(output));
    if out.len() == 0 {
        return None;
    }
    if contains_in(&out, &chars_of(MARKER)) {
        let joined = trim_vec(&joined_marked_lines(&out));
        let text = strip_think_vec(&trim_char_vec(&trim_char_vec(&joined, '"'), '\''));
        if text.len() == 0 {
            None
        } else {
            Some(string_of(&text))
        }
    } else {
        let text = strip_think_vec(&trim_char_vec(&trim_char_vec(&out, '"'), '\''));
        if text.len() == 0 {
            None
        } else {
            Some(string_of(&take_chars(&text, BARE_ANSWER_LIMIT)))
        }
    }
}

/// The prompt that asks the local model what was done: the beginning of the
/// operator's last request, and the question.
pub open spec fn short_summary_prompt_spec(last_user_prompt: Seq<char>) -> Seq<char> {
    SHORT_PROMPT_HEAD@ + last_user_prompt.take(
        if last_user_prompt.len() < REQUEST_LIMIT {
            last_user_prompt.len() as int
        } else {
            REQUEST_LIMIT as int
        },
    ) + SHORT_PROMPT_TAIL@
}

/// The command that asks the local model `model` for a summary of a few
/// words. It is to be run in the directory of the model.
pub fn short_summary_command(model: &str, turn: &TurnCompleted) -> (c: Invocation)
    ensures
        c@ == (InvocationView {
            program: "uv"@,
            args: seq![
                "run"@,
                "mlx_lm.generate"@,
                "--model"@,
                model@,
                "--system-prompt"@,
                SHORT_SYSTEM_PROMPT@,
                "--prompt"@,
                short_summary_prompt_spec(turn.last_user_prompt@),
                "--max-tokens"@,
                crate::text::decimal(SHORT_MAX_TOKENS as int),
            ],
        }),
{
    let request = take_chars(&chars_of(turn.last_user_prompt.as_str()), REQUEST_LIMIT);
    let mut prompt = String::from_str(SHORT_PROMPT_HEAD);
    prompt.append(string_of(&request).as_str());
    prompt.append(SHORT_PROMPT_TAIL);
    let mut tokens: Vec<char> = Vec::new();
    push_decimal(&mut tokens, SHORT_MAX_TOKENS as i64);
    assert(tokens@ =~= crate::text::decimal(SHORT_MAX_TOKENS as int));
    let mut args: Vec<String> = Vec::new();
    args.push(String::from_str("run"));
    args.push(String::from_str("mlx_lm.generate"));
    args.push(String::from_str("--model"));
    args.push(String::from_str(model));
    args.push(String::from_str("--system-prompt"));
    args.push(String::from_str(SHORT_SYSTEM_PROMPT));
    args.push(String::from_str("--prompt"));
    args.push(prompt);
    args.push(String::from_str("--max-tokens"));
    args.push(string_of(&tokens));
    let c = Invocation { program: String::from_str("uv"), args };
    assert(c@.args =~= seq![
        "run"@,
        "mlx_lm.generate"@,
        "--model"@,
        model@,
        "--system-prompt"@,
        SHORT_SYSTEM_PROMPT@,
        "--prompt"@,
        short_summary_prompt_spec(turn.last_user_prompt@),
        "--max-tokens"@,
        crate::text::decimal(SHORT_MAX_TOKENS as int),
    ]);
    c
}

/// The summary that is spoken: the local model's answer, or a fixed phrase
/// where it gave none.
pub open spec fn short_summary_spec(model_output: Option<Seq<char>>) -> Seq<char> {
    match model_output {
        Some(out) => match local_model_reply_spec(out) {
            Some(s) => s,
            None => WORK_COMPLETE@,
        },
        None => WORK_COMPLETE@,
    }
}

/// The summary that is spoken. `model_output` is what the local model
/// printed, or `None` where it is not set up, could not be run or failed.
pub fn build_short_summary(model_output: Option<&str>) -> (r: String)
    ensures
        r@ == short_summary_spec(
            match model_output {
                Some(o) => Some(o@),
                None => None,
            },
        ),
{
    match model_output {
        Some(out) => match local_model_reply(out) {
            Some(s) => s,
            None => String::from_str(WORK_COMPLETE),
        },
        None => String::from_str(WORK_COMPLETE),
    }
}

/// What is spoken about a finished turn.
pub open spec fn desk_message(summary: Seq<char>, context: Seq<char>) -> Seq<char> {
    summary + " on "@ + context + " and waiting for further instructions"@
}

/// The arguments of the speech command: the configured ones, the voice if
/// one is set, and the message.
pub open spec fn tts_args(
    extra: Option<Seq<Seq<char>>>,
    voice: Option<Seq<char>>,
    message: Seq<char>,
) -> Seq<Seq<char>> {
    (match extra {
        Some(a) => a,
        None => Seq::empty(),
    }) + (match voice {
        Some(v) => seq!["-v"@, v],
        None => Seq::empty(),
    }) + seq![message]
}

/// The command that speaks about a finished turn, given the summary of what
/// was done.
pub fn notify_at_desk(turn: &TurnCompleted, summary: &str, tts: &TtsSettings) -> (c: Invocation)
    ensures
        c@ == (InvocationView {
            program: tts.command@,
            args: tts_args(
                match tts.args {
                    Some(a) => Some(texts(a@)),
                    None => None,
                },
                match tts.voice {
                    Some(v) => Some(v@),
                    None => None,
                },
                desk_message(summary@, turn.main_context@),
            ),
        }),
{
    let mut message = String::from_str(summary);
    message.append(" on ");
    message.append(turn.main_context.as_str());
    message.append(" and waiting for further instructions");
    let mut args: Vec<String> = Vec::new();
    if let Some(extra) = &tts.args {
        let mut i: usize = 0;
        while i < extra.len()
            invariant
                i <= extra.len(),
                texts(args@) == texts(extra@).take(i as int),
            decreases extra.len() - i,
        {
            let ghost before = args@;
            args.push(extra[i].clone());
            assert(texts(args@) =~= texts(before).push(extra@[i as int]@));
            assert(texts(args@) =~= texts(extra@).take(i + 1));
            i += 1;
        }
        assert(texts(extra@).take(extra.len() as int) =~= texts(extra@));
    }
    let ghost head = texts(args@);
    if let Some(voice) = &tts.voice {
        args.push(String::from_str("-v"));
        args.push(voice.clone());
    }
    args.push(message);
    let c = Invocation { program: tts.command.clone(), args };
    assert(c@.args =~= tts_args(
        match tts.args {
            Some(a) => Some(texts(a@)),
            None => None,
        },
        match tts.voice {
            Some(v) => Some(v@),
            None => None,
        },
        desk_message(summary@, turn.main_context@),
    ));
    c
}

} // verus!
