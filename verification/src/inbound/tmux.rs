//! What the terminal multiplexer reports about its panes, and what may be
//! typed into one.

use crate::inbound::directory::{addresses, AddressView, AgentAddress};
use crate::text::{
    char_is_ascii_alphabetic, char_is_ascii_digit, char_is_ascii_graphic, char_is_control,
    chars_of, copy_range, cut, find_char, index_from, is_ascii_alphabetic, is_ascii_digit,
    is_ascii_graphic, is_control, line_ranges, lines, squeeze, squeezed, string_of,
    string_of_range, trim, trim_at,
};
use crate::util::{Invocation, InvocationView};
use vstd::prelude::*;
use vstd::string::*;

verus! {

/// A process name made of three or more runs of ASCII digits separated by
/// single dots, such as `16.20.1`.
pub open spec fn is_semver_like(s: Seq<char>) -> bool {
    &&& forall|i: int| 0 <= i < s.len() ==> s[i] == '.' || is_ascii_digit(#[trigger] s[i])
    &&& s.len() > 0 && s.first() != '.' && s.last() != '.'
    &&& forall|i: int| 0 <= i < s.len() - 1 ==> !(#[trigger] s[i] == '.' && s[i + 1] == '.')
    &&& exists|i: int, j: int| 0 <= i < j < s.len() && #[trigger] s[i] == '.' && #[trigger] s[j] == '.'
}

/// Whether the characters `v[from..to]` name a process like `16.20.1`.
pub fn semver_like_at(v: &Vec<char>, from: usize, to: usize) -> (b: bool)
    requires
        from <= to <= v.len(),
    ensures
        b == is_semver_like(v@.subrange(from as int, to as int)),
{
    let ghost s = v@.subrange(from as int, to as int);
    if from == to {
        return false;
    }
    let mut dots: usize = 0;
    let mut after_dot: bool = true;
    let mut k: usize = from;
    let ghost mut first_dot: int = 0;
    let ghost mut second_dot: int = 0;
    while k < to
        invariant
            from <= k <= to <= v.len(),
            s == v@.subrange(from as int, to as int),
            dots <= k - from,
            forall|i: int| 0 <= i < k - from ==> s[i] == '.' || is_ascii_digit(#[trigger] s[i]),
            s.first() != '.' || k == from,
            forall|i: int| 0 <= i < k - from - 1 ==> !(#[trigger] s[i] == '.' && s[i + 1] == '.'),
            after_dot == (k == from || s[k - from - 1] == '.'),
            dots == 0 ==> forall|i: int| 0 <= i < k - from ==> #[trigger] s[i] != '.',
            dots == 1 ==> 0 <= first_dot < k - from && s[first_dot] == '.' && forall|i: int|
                0 <= i < k - from && #[trigger] s[i] == '.' ==> i == first_dot,
            dots >= 2 ==> 0 <= first_dot < second_dot < k - from && s[first_dot] == '.'
                && s[second_dot] == '.',
        decreases to - k,
    {
        let c = v[k];
        assert(s[k - from] == c);
        if c == '.' {
            if after_dot {
                return false;
            }
            proof {
                if dots == 0 {
                    first_dot = k - from;
                } else if dots == 1 {
                    second_dot = k - from;
                }
            }
            dots += 1;
            after_dot = true;
        } else if char_is_ascii_digit(c) {
            after_dot = false;
        } else {
            return false;
        }
        k += 1;
    }
    !after_dot && dots >= 2
}

/// Whether a process name consists of three or more dot-separated runs of
/// digits, the shape under which an agent's runtime shows in a pane.
pub fn node_semver_process(cmd: &str) -> (b: bool)
    ensures
        b == is_semver_like(cmd@),
{
    let v = chars_of(cmd);
    assert(v@.subrange(0, v.len() as int) =~= v@);
    semver_like_at(&v, 0, v.len())
}

/// What is left of `s` after the end of an escape sequence that is under
/// way: the sequence ends with its first ASCII letter, or with `s`.
pub open spec fn after_escape(s: Seq<char>) -> Seq<char>
    decreases s.len(),
{
    if s.len() == 0 {
        s
    } else if is_ascii_alphabetic(s[0]) {
        s.skip(1)
    } else {
        after_escape(s.skip(1))
    }
}

/// `s` without its escape sequences and control characters. An escape
/// character followed by `[` opens a sequence that runs through its first
/// ASCII letter; an escape character alone is dropped alone. Of the control
/// characters only the newline stays.
pub open spec fn strip_control_spec(s: Seq<char>) -> Seq<char>
    decreases s.len(),
    via strip_control_decreases
{
    if s.len() == 0 {
        s
    } else if s[0] == '\x1b' {
        if s.len() > 1 && s[1] == '[' {
            strip_control_spec(after_escape(s.skip(2)))
        } else {
            strip_control_spec(s.skip(1))
        }
    } else if is_control(s[0]) && s[0] != '\n' {
        strip_control_spec(s.skip(1))
    } else {
        seq![s[0]] + strip_control_spec(s.skip(1))
    }
}

#[via_fn]
proof fn strip_control_decreases(s: Seq<char>) {
    if s.len() > 1 {
        lemma_after_escape_shorter(s.skip(2));
    }
}

/// An escape sequence never ends beyond the string it stands in.
pub proof fn lemma_after_escape_shorter(s: Seq<char>)
    ensures
        after_escape(s).len() <= s.len(),
    decreases s.len(),
{
    if s.len() > 0 && !is_ascii_alphabetic(s[0]) {
        lemma_after_escape_shorter(s.skip(1));
    }
}

/// A character that may reach a pane: the newline, or anything that is not a
/// control code.
pub open spec fn is_safe_key(c: char) -> bool {
    c == '\n' || !is_control(c)
}

/// Nothing but safe characters is left by `strip_control_spec`.
pub proof fn lemma_strip_control_safe(s: Seq<char>)
    ensures
        forall|i: int|
            0 <= i < strip_control_spec(s).len() ==> is_safe_key(
                #[trigger] strip_control_spec(s)[i],
            ),
    decreases s.len(),
{
    let out = strip_control_spec(s);
    if s.len() == 0 {
    } else if s[0] == '\x1b' {
        if s.len() > 1 && s[1] == '[' {
            lemma_after_escape_shorter(s.skip(2));
            lemma_strip_control_safe(after_escape(s.skip(2)));
            assert(out == strip_control_spec(after_escape(s.skip(2))));
        } else {
            lemma_strip_control_safe(s.skip(1));
            assert(out == strip_control_spec(s.skip(1)));
        }
    } else if is_control(s[0]) && s[0] != '\n' {
        lemma_strip_control_safe(s.skip(1));
        assert(out == strip_control_spec(s.skip(1)));
    } else {
        lemma_strip_control_safe(s.skip(1));
        let rest = strip_control_spec(s.skip(1));
        assert(out == seq![s[0]] + rest);
        assert forall|i: int| 0 <= i < out.len() implies is_safe_key(#[trigger] out[i]) by {
            if i > 0 {
                assert(out[i] == rest[i - 1]);
            }
        }
    }
}

/// Text of safe characters at the front of a string is left as it is.
pub proof fn lemma_safe_prefix_stays(a: Seq<char>, rest: Seq<char>)
    requires
        forall|i: int| 0 <= i < a.len() ==> is_safe_key(#[trigger] a[i]),
    ensures
        strip_control_spec(a + rest) == a + strip_control_spec(rest),
    decreases a.len(),
{
    if a.len() == 0 {
        assert(a + rest =~= rest);
        assert(a + strip_control_spec(rest) =~= strip_control_spec(rest));
    } else {
        let whole = a + rest;
        assert(is_safe_key(a[0]));
        assert(whole[0] == a[0]);
        assert(whole.skip(1) =~= a.skip(1) + rest);
        assert forall|i: int| 0 <= i < a.skip(1).len() implies is_safe_key(
            #[trigger] a.skip(1)[i],
        ) by {
            assert(a.skip(1)[i] == a[i + 1]);
        }
        lemma_safe_prefix_stays(a.skip(1), rest);
        assert(seq![a[0]] + (a.skip(1) + strip_control_spec(rest)) =~= a + strip_control_spec(
            rest,
        ));
    }
}

/// An escape sequence ends with its first letter: what precedes the letter
/// goes with it, what follows stays.
pub proof fn lemma_escape_ends_at_letter(params: Seq<char>, letter: char, rest: Seq<char>)
    requires
        forall|i: int| 0 <= i < params.len() ==> !is_ascii_alphabetic(#[trigger] params[i]),
        is_ascii_alphabetic(letter),
    ensures
        after_escape(params + seq![letter] + rest) == rest,
    decreases params.len(),
{
    let whole = params + seq![letter] + rest;
    if params.len() == 0 {
        assert(whole[0] == letter);
        assert(whole.skip(1) =~= rest);
    } else {
        assert(whole[0] == params[0]);
        assert(!is_ascii_alphabetic(params[0]));
        assert(whole.skip(1) =~= params.skip(1) + seq![letter] + rest);
        assert forall|i: int| 0 <= i < params.skip(1).len() implies !is_ascii_alphabetic(
            #[trigger] params.skip(1)[i],
        ) by {
            assert(params.skip(1)[i] == params[i + 1]);
        }
        lemma_escape_ends_at_letter(params.skip(1), letter, rest);
    }
}

/// Of a string that mixes visible text with an escape sequence and a stray
/// control character, the visible text is what is left, joined as it stood:
/// the sequence and the control character vanish and nothing is put in
/// their place.
pub proof fn law_escape_and_control_vanish(
    before: Seq<char>,
    params: Seq<char>,
    letter: char,
    between: Seq<char>,
    stray: char,
    after: Seq<char>,
)
    requires
        forall|i: int| 0 <= i < before.len() ==> is_safe_key(#[trigger] before[i]),
        forall|i: int| 0 <= i < between.len() ==> is_safe_key(#[trigger] between[i]),
        forall|i: int| 0 <= i < after.len() ==> is_safe_key(#[trigger] after[i]),
        forall|i: int| 0 <= i < params.len() ==> !is_ascii_alphabetic(#[trigger] params[i]),
        is_ascii_alphabetic(letter),
        is_control(stray) && stray != '\n' && stray != '\x1b',
    ensures
        strip_control_spec(
            before + seq!['\x1b', '['] + params + seq![letter] + between + seq![stray] + after,
        ) == before + between + after,
{
    let tail = seq![stray] + after;
    assert(tail[0] == stray);
    assert(tail.skip(1) =~= after);
    lemma_safe_prefix_stays(after, Seq::empty());
    assert(after + Seq::<char>::empty() =~= after);
    assert(strip_control_spec(Seq::<char>::empty()) =~= Seq::<char>::empty());
    assert(strip_control_spec(after) =~= after);
    assert(strip_control_spec(tail) == after);
    lemma_safe_prefix_stays(between, tail);
    let middle = between + tail;
    let escape = seq!['\x1b', '['] + params + seq![letter] + middle;
    assert(escape[0] == '\x1b' && escape[1] == '[');
    assert(escape.skip(2) =~= params + seq![letter] + middle);
    lemma_escape_ends_at_letter(params, letter, middle);
    assert(strip_control_spec(escape) == strip_control_spec(middle));
    lemma_safe_prefix_stays(before, escape);
    assert(before + escape =~= before + seq!['\x1b', '['] + params + seq![letter] + between
        + seq![stray] + after);
    assert(before + (between + after) =~= before + between + after);
}

/// Where the escape sequence that is under way at `from` ends.
fn escape_end(v: &Vec<char>, from: usize) -> (k: usize)
    requires
        from <= v.len(),
    ensures
        from <= k <= v.len(),
        v@.skip(k as int) == after_escape(v@.skip(from as int)),
{
    let mut k: usize = from;
    while k < v.len()
        invariant
            from <= k <= v.len(),
            after_escape(v@.skip(k as int)) == after_escape(v@.skip(from as int)),
        decreases v.len() - k,
    {
        assert(v@.skip(k as int).skip(1) =~= v@.skip(k + 1));
        if char_is_ascii_alphabetic(v[k]) {
            return k + 1;
        }
        k += 1;
    }
    k
}

/// Removes escape sequences and control characters from text that is to be
/// typed into a pane; newlines stay.
pub fn strip_control(text: &str) -> (out: String)
    ensures
        out@ == strip_control_spec(text@),
        forall|i: int| 0 <= i < out@.len() ==> is_safe_key(#[trigger] out@[i]),
{
    let v = chars_of(text);
    let mut out: Vec<char> = Vec::new();
    let mut k: usize = 0;
    assert(v@.skip(0) =~= v@);
    assert(out@ + strip_control_spec(v@) =~= strip_control_spec(v@));
    while k < v.len()
        invariant
            k <= v.len(),
            out@ + strip_control_spec(v@.skip(k as int)) == strip_control_spec(v@),
        decreases v.len() - k,
    {
        let c = v[k];
        let ghost rest = v@.skip(k as int);
        assert(rest.skip(1) =~= v@.skip(k + 1));
        if c == '\x1b' {
            if k + 1 < v.len() && v[k + 1] == '[' {
                assert(rest.skip(2) =~= v@.skip(k + 2));
                k = escape_end(&v, k + 2);
            } else {
                k += 1;
            }
        } else if char_is_control(c) && c != '\n' {
            k += 1;
        } else {
            assert(out@.push(c) + strip_control_spec(rest.skip(1)) =~= out@ + (seq![c]
                + strip_control_spec(rest.skip(1))));
            out.push(c);
            k += 1;
        }
    }
    proof {
        assert(out@ + strip_control_spec(v@.skip(k as int)) =~= out@);
        lemma_strip_control_safe(text@);
    }
    string_of(&out)
}

/// A character that a label keeps: visible ASCII, or a space.
pub open spec fn is_label_char(c: char) -> bool {
    is_ascii_graphic(c) || c == ' '
}

/// The label of a pane as it is shown: only visible ASCII and spaces are
/// kept, and its words are set one space apart.
pub open spec fn clean_label(s: Seq<char>) -> Seq<char> {
    squeeze(s.filter(|c: char| is_label_char(c)))
}

/// The session that one line of a pane listing reports. A line holds the
/// pane's identifier, its label and its current process, separated by `|`;
/// it reports a session where the process is named like a runtime version.
pub open spec fn pane_of_line(line: Seq<char>) -> Option<AddressView> {
    match index_from(line, '|', 0) {
        None => None,
        Some(i) => match index_from(line, '|', i + 1) {
            None => None,
            Some(j) => if is_semver_like(trim(line.skip(j + 1))) {
                Some(
                    AddressView {
                        pane_id: line.take(i),
                        label: clean_label(line.subrange(i + 1, j)),
                    },
                )
            } else {
                None
            },
        },
    }
}

/// The sessions that a pane listing reports, in the order of its lines.
pub open spec fn scan_spec(listing: Seq<char>) -> Seq<AddressView> {
    lines(listing).filter_map(|line: Seq<char>| pane_of_line(line))
}

/// The label in `v[from..to]`, cleaned for display.
fn cleaned_label(v: &Vec<char>, from: usize, to: usize) -> (out: String)
    requires
        from <= to <= v.len(),
    ensures
        out@ == clean_label(v@.subrange(from as int, to as int)),
{
    let ghost s = v@.subrange(from as int, to as int);
    let ghost keep = |c: char| is_label_char(c);
    let mut kept: Vec<char> = Vec::new();
    let mut i: usize = from;
    proof {
        reveal(Seq::filter);
        assert(s.take(0) =~= Seq::<char>::empty());
    }
    while i < to
        invariant
            from <= i <= to <= v.len(),
            s == v@.subrange(from as int, to as int),
            keep == |c: char| is_label_char(c),
            kept@ == s.take(i - from).filter(keep),
        decreases to - i,
    {
        let c = v[i];
        proof {
            s.take(i - from).lemma_filter_push(c, keep);
            assert(s.take(i - from).push(c) =~= s.take(i - from + 1));
        }
        if char_is_ascii_graphic(c) || c == ' ' {
            kept.push(c);
        }
        i += 1;
    }
    assert(s.take(to - from) =~= s);
    let out = squeezed(&kept);
    string_of(&out)
}

/// The session that one line of a pane listing reports.
fn scan_line(line: &Vec<char>) -> (r: Option<AgentAddress>)
    ensures
        match r {
            Some(a) => pane_of_line(line@) == Some(a@),
            None => pane_of_line(line@) is None,
        },
{
    let n = line.len();
    assert(line@.take(n as int) =~= line@);
    let i = match find_char(line, '|', 0, n) {
        Some(i) => i,
        None => {
            return None;
        },
    };
    let j = match find_char(line, '|', i + 1, n) {
        Some(j) => j,
        None => {
            return None;
        },
    };
    assert(line@.skip(j + 1) =~= line@.subrange(j + 1, n as int));
    assert(line@.take(i as int) =~= line@.subrange(0, i as int));
    let (a, b) = trim_at(line, j + 1, n);
    if !semver_like_at(line, a, b) {
        return None;
    }
    let pane_id = string_of_range(line, 0, i);
    let label = cleaned_label(line, i + 1, j);
    Some(AgentAddress::TmuxPane { pane_id, label })
}

/// The live sessions that a pane listing reports, in the order of its lines.
pub fn scan_live_panes(listing: &str) -> (r: Vec<AgentAddress>)
    ensures
        addresses(r@) == scan_spec(listing@),
{
    let v = chars_of(listing);
    let ranges = line_ranges(&v);
    let ghost f = |line: Seq<char>| pane_of_line(line);
    let ghost all = lines(v@);
    let mut out: Vec<AgentAddress> = Vec::new();
    let mut k: usize = 0;
    assert(addresses(out@) =~= all.take(0).filter_map(f));
    while k < ranges.len()
        invariant
            k <= ranges.len(),
            all == lines(v@),
            f == |line: Seq<char>| pane_of_line(line),
            crate::text::ranges_within(ranges@, v.len() as int),
            cut(v@, ranges@) == all,
            addresses(out@) == all.take(k as int).filter_map(f),
        decreases ranges.len() - k,
    {
        let (a, b) = ranges[k];
        let line = copy_range(&v, a, b);
        assert(line@ == cut(v@, ranges@)[k as int]);
        let ghost before = out@;
        proof {
            all.lemma_filter_map_take_succ(f, k as int);
        }
        match scan_line(&line) {
            Some(addr) => {
                out.push(addr);
                assert(addresses(out@) =~= addresses(before) + seq![addr@]);
            },
            None => {
                assert(addresses(before) + Seq::<AddressView>::empty() =~= addresses(before));
            },
        }
        k += 1;
    }
    assert(all.take(ranges.len() as int) =~= all);
    out
}

/// The command that lists every pane with its identifier, its label and its
/// current process, one pane a line.
pub open spec fn list_panes_spec() -> InvocationView {
    InvocationView {
        program: "tmux"@,
        args: seq![
            "list-panes"@,
            "-a"@,
            "-F"@,
            "#{pane_id}|#{session_name}:#{window_index}.#{pane_index}|#{pane_current_command}"@,
        ],
    }
}

/// The command that lists every pane, in the form that `scan_live_panes`
/// reads.
pub fn list_panes_command() -> (c: Invocation)
    ensures
        c@ == list_panes_spec(),
{
    let mut args: Vec<String> = Vec::new();
    args.push(String::from_str("list-panes"));
    args.push(String::from_str("-a"));
    args.push(String::from_str("-F"));
    args.push(
        String::from_str(
            "#{pane_id}|#{session_name}:#{window_index}.#{pane_index}|#{pane_current_command}",
        ),
    );
    let c = Invocation { program: String::from_str("tmux"), args };
    assert(c@.args =~= list_panes_spec().args);
    c
}

/// The command that asks one pane for its current process.
pub open spec fn pane_command_spec(pane_id: Seq<char>) -> InvocationView {
    InvocationView {
        program: "tmux"@,
        args: seq!["display-message"@, "-t"@, pane_id, "-p"@, "#{pane_current_command}"@],
    }
}

/// The command that asks the pane `pane_id` for its current process.
pub fn pane_command_query(pane_id: &str) -> (c: Invocation)
    ensures
        c@ == pane_command_spec(pane_id@),
{
    let mut args: Vec<String> = Vec::new();
    args.push(String::from_str("display-message"));
    args.push(String::from_str("-t"));
    args.push(String::from_str(pane_id));
    args.push(String::from_str("-p"));
    args.push(String::from_str("#{pane_current_command}"));
    let c = Invocation { program: String::from_str("tmux"), args };
    assert(c@.args =~= pane_command_spec(pane_id@).args);
    c
}

/// Whether a pane still runs an agent, given what it reported as its current
/// process; `None` where it gave no answer.
pub fn is_pane_alive(current_command: Option<&str>) -> (r: bool)
    ensures
        r == match current_command {
            Some(out) => is_semver_like(trim(out@)),
            None => false,
        },
{
    match current_command {
        None => false,
        Some(out) => {
            let v = chars_of(out);
            assert(v@.subrange(0, v.len() as int) =~= v@);
            let (a, b) = trim_at(&v, 0, v.len());
            semver_like_at(&v, a, b)
        },
    }
}

/// The two commands that type `text` into the pane `pane_id`: first its
/// characters, literally and free of escape sequences and control codes,
/// then the Enter key.
pub open spec fn relay_keys(pane_id: Seq<char>, text: Seq<char>) -> Seq<InvocationView> {
    seq![
        InvocationView {
            program: "tmux"@,
            args: seq!["send-keys"@, "-t"@, pane_id, "-l"@, strip_control_spec(text)],
        },
        InvocationView { program: "tmux"@, args: seq!["send-keys"@, "-t"@, pane_id, "Enter"@] },
    ]
}

/// The commands that type `text` into the pane `pane_id` and press Enter.
pub fn relay_to_tmux_pane(pane_id: &str, text: &str) -> (r: Vec<Invocation>)
    ensures
        r@.map_values(|c: Invocation| c@) == relay_keys(pane_id@, text@),
{
    let safe = strip_control(text);
    let mut typed: Vec<String> = Vec::new();
    typed.push(String::from_str("send-keys"));
    typed.push(String::from_str("-t"));
    typed.push(String::from_str(pane_id));
    typed.push(String::from_str("-l"));
    typed.push(safe);
    let mut enter: Vec<String> = Vec::new();
    enter.push(String::from_str("send-keys"));
    enter.push(String::from_str("-t"));
    enter.push(String::from_str(pane_id));
    enter.push(String::from_str("Enter"));
    let first = Invocation { program: String::from_str("tmux"), args: typed };
    let second = Invocation { program: String::from_str("tmux"), args: enter };
    assert(first@.args =~= relay_keys(pane_id@, text@)[0].args);
    assert(second@.args =~= relay_keys(pane_id@, text@)[1].args);
    let mut r: Vec<Invocation> = Vec::new();
    r.push(first);
    r.push(second);
    assert(r@.map_values(|c: Invocation| c@) =~= relay_keys(pane_id@, text@));
    r
}

} // verus!
