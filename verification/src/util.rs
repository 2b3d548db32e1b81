//! Values shared by the inbound and the outbound side: a command for the
//! caller to run, and the filters applied to what leaves the process.

use crate::text::{char_is_control, chars_eq, chars_of, is_control, join, string_of};
use vstd::prelude::*;
use vstd::string::*;

verus! {

/// A program for the caller to run, with its arguments.
#[derive(Debug)]
pub struct Invocation {
    pub program: String,
    pub args: Vec<String>,
}

/// An `Invocation` as plain text.
pub struct InvocationView {
    pub program: Seq<char>,
    pub args: Seq<Seq<char>>,
}

/// The texts of a list of strings.
pub open spec fn texts(v: Seq<String>) -> Seq<Seq<char>> {
    Seq::new(v.len(), |i: int| v[i]@)
}

impl View for Invocation {
    type V = InvocationView;

    open spec fn view(&self) -> InvocationView {
        InvocationView { program: self.program@, args: texts(self.args@) }
    }
}

/// Whether two strings hold the same characters.
pub fn str_eq(a: &str, b: &str) -> (r: bool)
    ensures
        r == (a@ == b@),
{
    let x = chars_of(a);
    let y = chars_of(b);
    chars_eq(&x, &y)
}

/// Whether a character may stand in a string literal of a script: line
/// breaks would end the statement, the not sign continues a line, and control
/// characters are noise.
pub open spec fn is_script_safe(c: char) -> bool {
    c != '\n' && c != '\r' && c != '\u{ac}' && !is_control(c)
}

/// `text` without the characters that would break a string literal of a
/// script.
pub open spec fn sanitised(text: Seq<char>) -> Seq<char> {
    text.filter(|c: char| is_script_safe(c))
}

/// `text` without the characters that would break a string literal of a
/// script.
pub fn sanitise_for_applescript(text: &str) -> (out: String)
    ensures
        out@ == sanitised(text@),
{
    let v = chars_of(text);
    let mut out: Vec<char> = Vec::new();
    let ghost keep = |c: char| is_script_safe(c);
    let mut i: usize = 0;
    proof {
        reveal(Seq::filter);
        assert(v@.take(0) =~= Seq::<char>::empty());
    }
    while i < v.len()
        invariant
            i <= v.len(),
            keep == |c: char| is_script_safe(c),
            out@ == v@.take(i as int).filter(keep),
        decreases v.len() - i,
    {
        let c = v[i];
        proof {
            v@.take(i as int).lemma_filter_push(c, keep);
            assert(v@.take(i as int).push(c) =~= v@.take(i + 1));
        }
        if c != '\n' && c != '\r' && c != '\u{ac}' && !char_is_control(c) {
            out.push(c);
        }
        i += 1;
    }
    assert(v@.take(v.len() as int) =~= v@);
    string_of(&out)
}

/// Whether a variable of the environment is handed on to the assistant's
/// command line.
pub open spec fn is_forwarded(name: Seq<char>) -> bool {
    ||| name == "PATH"@
    ||| name == "HOME"@
    ||| name == "ANTHROPIC_API_KEY"@
    ||| name == "TMPDIR"@
    ||| name == "LANG"@
    ||| name == "LC_ALL"@
}

/// The variables among `vars` that are handed on, in their order, each with
/// its value.
pub open spec fn forwarded(vars: Seq<(String, String)>) -> Seq<(Seq<char>, Seq<char>)> {
    vars.map_values(|p: (String, String)| (p.0@, p.1@)).filter(
        |p: (Seq<char>, Seq<char>)| is_forwarded(p.0),
    )
}

/// The variables of the environment that the assistant's command line may
/// see, out of all that the process has.
pub fn ai_cli_env(vars: Vec<(String, String)>) -> (out: Vec<(String, String)>)
    ensures
        out@.map_values(|p: (String, String)| (p.0@, p.1@)) == forwarded(vars@),
{
    let ghost plain = |p: (String, String)| (p.0@, p.1@);
    let ghost keep = |p: (Seq<char>, Seq<char>)| is_forwarded(p.0);
    let mut out: Vec<(String, String)> = Vec::new();
    let mut i: usize = 0;
    proof {
        reveal(Seq::filter);
        assert(vars@.take(0).map_values(plain) =~= Seq::empty());
        assert(out@.map_values(plain) =~= Seq::empty());
    }
    while i < vars.len()
        invariant
            i <= vars.len(),
            plain == |p: (String, String)| (p.0@, p.1@),
            keep == |p: (Seq<char>, Seq<char>)| is_forwarded(p.0),
            out@.map_values(plain) == vars@.take(i as int).map_values(plain).filter(keep),
        decreases vars.len() - i,
    {
        let name = vars[i].0.as_str();
        let ghost before = out@;
        proof {
            let seen = vars@.take(i as int).map_values(plain);
            seen.lemma_filter_push(plain(vars@[i as int]), keep);
            assert(seen.push(plain(vars@[i as int])) =~= vars@.take(i + 1).map_values(plain));
        }
        if str_eq(name, "PATH") || str_eq(name, "HOME") || str_eq(name, "ANTHROPIC_API_KEY")
            || str_eq(name, "TMPDIR") || str_eq(name, "LANG") || str_eq(name, "LC_ALL") {
            out.push((vars[i].0.clone(), vars[i].1.clone()));
            assert(out@.map_values(plain) =~= before.map_values(plain).push(
                plain(vars@[i as int]),
            ));
        }
        i += 1;
    }
    assert(vars@.take(vars.len() as int) =~= vars@);
    out
}

/// `parts` written one after the other with `sep` between them.
pub fn join_strings(parts: &Vec<String>, sep: &str) -> (out: String)
    ensures
        out@ == join(texts(parts@), sep@),
{
    let mut out = String::new();
    let mut i: usize = 0;
    assert(texts(parts@).take(0) =~= Seq::<Seq<char>>::empty());
    while i < parts.len()
        invariant
            i <= parts.len(),
            out@ == join(texts(parts@).take(i as int), sep@),
        decreases parts.len() - i,
    {
        let ghost before = texts(parts@).take(i as int);
        let ghost next = texts(parts@).take(i + 1);
        assert(next.drop_last() =~= before);
        assert(next.last() == parts@[i as int]@);
        if i > 0 {
            out.append(sep);
        }
        out.append(parts[i].as_str());
        assert(out@ =~= join(next, sep@));
        i += 1;
    }
    assert(texts(parts@).take(parts.len() as int) =~= texts(parts@));
    out
}

/// The arguments that make the assistant's command line answer one prompt
/// with the given model, in a single turn and with its hooks off.
pub open spec fn ai_cli_args(prompt: Seq<char>, model: Seq<char>) -> Seq<Seq<char>> {
    seq![
        "-p"@,
        prompt,
        "--model"@,
        model,
        "--max-turns"@,
        "1"@,
        "--settings"@,
        "{\"disableAllHooks\":true}"@,
    ]
}

/// The command that asks the assistant at `cli` one prompt.
pub fn ai_cli_command(cli: &str, prompt: &str, model: &str) -> (c: Invocation)
    ensures
        c@ == (InvocationView { program: cli@, args: ai_cli_args(prompt@, model@) }),
{
    let mut args: Vec<String> = Vec::new();
    args.push(String::from_str("-p"));
    args.push(String::from_str(prompt));
    args.push(String::from_str("--model"));
    args.push(String::from_str(model));
    args.push(String::from_str("--max-turns"));
    args.push(String::from_str("1"));
    args.push(String::from_str("--settings"));
    args.push(String::from_str("{\"disableAllHooks\":true}"));
    let c = Invocation { program: String::from_str(cli), args };
    assert(c@.args =~= ai_cli_args(prompt@, model@));
    c
}

/// The command that asks the terminal multiplexer to print `format`, for
/// the pane or session `target` or, without one, for the active pane.
pub open spec fn display_message_spec(target: Option<Seq<char>>, format: Seq<char>) -> InvocationView {
    InvocationView {
        program: "tmux"@,
        args: match target {
            Some(t) => seq!["display-message"@, "-t"@, t, "-p"@, format],
            None => seq!["display-message"@, "-p"@, format],
        },
    }
}

/// The command that asks the terminal multiplexer to print `format`.
pub fn display_message(target: Option<&str>, format: &str) -> (c: Invocation)
    ensures
        c@ == display_message_spec(
            match target {
                Some(t) => Some(t@),
                None => None,
            },
            format@,
        ),
{
    let mut args: Vec<String> = Vec::new();
    args.push(String::from_str("display-message"));
    if let Some(t) = target {
        args.push(String::from_str("-t"));
        args.push(String::from_str(t));
    }
    args.push(String::from_str("-p"));
    args.push(String::from_str(format));
    let c = Invocation { program: String::from_str("tmux"), args };
    assert(c@.args =~= display_message_spec(
        match target {
            Some(t) => Some(t@),
            None => None,
        },
        format@,
    ).args);
    c
}

/// What a command answered: its output, trimmed, unless the command could
/// not run or printed nothing.
pub open spec fn reply_spec(output: Option<Seq<char>>) -> Option<Seq<char>> {
    match output {
        Some(out) => if crate::text::trim(out).len() == 0 {
            None
        } else {
            Some(crate::text::trim(out))
        },
        None => None,
    }
}

/// What a command answered, given what it printed; `None` where it could
/// not run or printed nothing but white space.
pub fn query_reply(output: Option<&str>) -> (r: Option<String>)
    ensures
        match r {
            Some(s) => reply_spec(
                match output {
                    Some(o) => Some(o@),
                    None => None,
                },
            ) == Some(s@),
            None => reply_spec(
                match output {
                    Some(o) => Some(o@),
                    None => None,
                },
            ) is None,
        },
{
    match output {
        None => None,
        Some(out) => {
            let t = crate::text::trim_vec(&chars_of(out));
            if t.len() == 0 {
                None
            } else {
                Some(string_of(&t))
            }
        },
    }
}

} // verus!
