//! The tailer of the operator's message log.
//!
//! The log is a table of numbered rows that only grows. The tailer keeps, for
//! each class of row that it follows, the number of the last row that became
//! a fact. A poll turns the rows beyond a cursor into facts to append; a
//! cursor moves on only once the store has taken the fact.
//!
//! The policy on failure is to advance after the append succeeded. A row whose
//! append failed leaves its cursor where it was, so that the next poll offers
//! the row again, unless a later row of the same poll was appended: the
//! cursor then passes the failed row, which is lost. A crash between append
//! and advance shows a row twice. No row is lost to a crash.

use crate::text::{
    chars_of, decimal, parse_i64, parse_i64_spec, push_decimal, string_of, trim, trim_vec,
};
use crate::util::{str_eq, texts, Invocation, InvocationView};
use vstd::prelude::*;
use vstd::string::*;

verus! {

/// The mark that the daemon's own messages begin with. A row that begins
/// with it is an echo of what the daemon sent, not something the operator
/// wrote.
pub const REPLY_PREFIX: char = '\u{1F916}';

/// One row of a query's output, as far as the tailer reads it: the row's
/// number and its text, each where the row has it in the expected type.
#[derive(Debug)]
pub struct RawRow {
    pub rowid: Option<i64>,
    pub text: Option<String>,
}

/// The rows that a JSON document holds, as `serde_json` reads it: `None`
/// where the document is no array of JSON values; else, for each element,
/// its member `ROWID` where that is an integer that fits 64 bits, and its
/// member `text` where that is a string.
pub uninterp spec fn decoded_rows(bytes: Seq<u8>) -> Option<Seq<(Option<i64>, Option<Seq<char>>)>>;

/// The plain form of a list of raw rows.
pub open spec fn raw_rows(rows: Seq<RawRow>) -> Seq<(Option<i64>, Option<Seq<char>>)> {
    Seq::new(
        rows.len(),
        |i: int|
            (
                rows[i].rowid,
                match rows[i].text {
                    Some(t) => Some(t@),
                    None => None,
                },
            ),
    )
}

/// Parses `bytes` with `serde_json::from_slice` as an array of JSON values
/// and reads from each element the members `ROWID`, with `Value::as_i64`, and
/// `text`, with `Value::as_str`. The result depends on the bytes alone.
#[verifier::external_body]
fn decode_rows(bytes: &[u8]) -> (r: Option<Vec<RawRow>>)
    ensures
        match r {
            Some(rows) => decoded_rows(bytes@) == Some(raw_rows(rows@)),
            None => decoded_rows(bytes@) is None,
        },
{
    let rows: Vec<serde_json::Value> = serde_json::from_slice(bytes).ok()?;
    Some(
        rows.iter().map(
            |row|
                RawRow {
                    rowid: row.get("ROWID").and_then(|v| v.as_i64()),
                    text: row.get("text").and_then(|v| v.as_str()).map(|t| t.to_string()),
                },
        ).collect(),
    )
}

/// A row of the log that is to become a fact.
pub struct Message {
    pub rowid: i64,
    pub text: Seq<char>,
}

/// The plain form of a list of numbered texts.
pub open spec fn messages(rows: Seq<(i64, String)>) -> Seq<Message> {
    Seq::new(rows.len(), |i: int| Message { rowid: rows[i].0, text: rows[i].1@ })
}

/// The message that a raw row stands for: it has a number and a text, and
/// the text, trimmed, is neither empty nor one of the daemon's own.
pub open spec fn qualifying(row: (Option<i64>, Option<Seq<char>>)) -> Option<Message> {
    match row {
        (Some(rowid), Some(text)) => {
            let t = trim(text);
            if t.len() == 0 || t[0] == REPLY_PREFIX {
                None
            } else {
                Some(Message { rowid, text: t })
            }
        },
        _ => None,
    }
}

/// The messages among `rows`, in their order.
pub open spec fn qualifying_spec(rows: Seq<(Option<i64>, Option<Seq<char>>)>) -> Seq<Message> {
    rows.filter_map(|row: (Option<i64>, Option<Seq<char>>)| qualifying(row))
}

/// The messages among the rows of a query's output: each with its number
/// and its trimmed text, in the order of the rows.
pub fn qualifying_rows(rows: Vec<RawRow>) -> (r: Vec<(i64, String)>)
    ensures
        messages(r@) == qualifying_spec(raw_rows(rows@)),
{
    let ghost all = raw_rows(rows@);
    let ghost f = |row: (Option<i64>, Option<Seq<char>>)| qualifying(row);
    let mut r: Vec<(i64, String)> = Vec::new();
    let mut i: usize = 0;
    assert(messages(r@) =~= all.take(0).filter_map(f));
    while i < rows.len()
        invariant
            i <= rows.len(),
            all == raw_rows(rows@),
            f == |row: (Option<i64>, Option<Seq<char>>)| qualifying(row),
            messages(r@) == all.take(i as int).filter_map(f),
        decreases rows.len() - i,
    {
        let ghost before = r@;
        proof {
            all.lemma_filter_map_take_succ(f, i as int);
        }
        let mut kept = false;
        if let Some(rowid) = rows[i].rowid {
            if let Some(text) = &rows[i].text {
                let t = trim_vec(&chars_of(text.as_str()));
                if t.len() > 0 && t[0] != REPLY_PREFIX {
                    r.push((rowid, string_of(&t)));
                    kept = true;
                    assert(messages(r@) =~= messages(before) + seq![
                        Message { rowid, text: t@ },
                    ]);
                }
            }
        }
        if !kept {
            assert(messages(before) + Seq::<Message>::empty() =~= messages(before));
        }
        i += 1;
    }
    assert(all.take(rows.len() as int) =~= all);
    r
}

/// The messages that the output of a query holds. An output that cannot be
/// read holds none.
pub fn query_messages(output: &[u8]) -> (r: Vec<(i64, String)>)
    ensures
        messages(r@) == match decoded_rows(output@) {
            Some(rows) => qualifying_spec(rows),
            None => Seq::empty(),
        },
{
    match decode_rows(output) {
        Some(rows) => qualifying_rows(rows),
        None => {
            let r: Vec<(i64, String)> = Vec::new();
            assert(messages(r@) =~= Seq::<Message>::empty());
            r
        },
    }
}

/// The query for the highest row number of the log.
pub const MAX_ROWID_SQL: &'static str = "SELECT MAX(ROWID) FROM message;";

/// The command that asks the log at `db_path` for its highest row number.
pub fn max_rowid_query(db_path: &str) -> (c: Invocation)
    ensures
        c@ == (InvocationView { program: "sqlite3"@, args: seq![db_path@, MAX_ROWID_SQL@] }),
{
    let mut args: Vec<String> = Vec::new();
    args.push(String::from_str(db_path));
    args.push(String::from_str(MAX_ROWID_SQL));
    let c = Invocation { program: String::from_str("sqlite3"), args };
    assert(c@.args =~= seq![db_path@, MAX_ROWID_SQL@]);
    c
}

/// The highest row number that the log reported, or 0 where it reported
/// none: the command could not run, or it printed no number.
pub fn get_max_rowid(output: Option<&str>) -> (r: i64)
    ensures
        r == match output {
            Some(out) => match parse_i64_spec(trim(out@)) {
                Some(n) => n,
                None => 0,
            },
            None => 0,
        },
{
    match output {
        None => 0,
        Some(out) => match parse_i64(&trim_vec(&chars_of(out))) {
            Some(n) => n,
            None => 0,
        },
    }
}

/// The numbers of `ids` in decimal, separated by commas.
pub open spec fn id_list(ids: Seq<i64>) -> Seq<char>
    decreases ids.len(),
{
    if ids.len() == 0 {
        Seq::empty()
    } else if ids.len() == 1 {
        decimal(ids[0] as int)
    } else {
        id_list(ids.drop_last()) + seq![','] + decimal(ids.last() as int)
    }
}

/// The query for the rows beyond `last_rowid` that belong to one of the
/// conversations `ids` and were written by the operator's own devices
/// (`is_from_me` 1) or by the other party (0), lowest row first.
pub open spec fn fetch_sql(last_rowid: i64, is_from_me: u8, ids: Seq<i64>) -> Seq<char> {
    "SELECT ROWID, text FROM message WHERE ROWID > "@ + decimal(last_rowid as int)
        + " AND handle_id IN ("@ + id_list(ids) + ") AND is_from_me = "@ + decimal(
        is_from_me as int,
    ) + " AND text IS NOT NULL AND length(text) > 0 ORDER BY ROWID ASC;"@
}

/// Appends the characters of `s` to `out`.
fn push_text(out: &mut Vec<char>, s: &str)
    ensures
        final(out)@ == old(out)@ + s@,
{
    let v = chars_of(s);
    crate::text::extend_chars(out, &v);
}

/// The command that fetches from the log at `db_path` the rows beyond
/// `last_rowid` of the conversations `ids`, as JSON. Without a conversation
/// to follow there is nothing to fetch.
pub fn fetch_messages(db_path: &str, last_rowid: i64, is_from_me: u8, ids: &Vec<i64>) -> (r:
    Option<Invocation>)
    ensures
        match r {
            Some(c) => ids.len() > 0 && c@ == (InvocationView {
                program: "sqlite3"@,
                args: seq!["-json"@, db_path@, fetch_sql(last_rowid, is_from_me, ids@)],
            }),
            None => ids.len() == 0,
        },
{
    if ids.len() == 0 {
        return None;
    }
    let mut sql: Vec<char> = Vec::new();
    push_text(&mut sql, "SELECT ROWID, text FROM message WHERE ROWID > ");
    push_decimal(&mut sql, last_rowid);
    push_text(&mut sql, " AND handle_id IN (");
    let ghost head = sql@;
    let mut i: usize = 0;
    assert(ids@.take(0) =~= Seq::<i64>::empty());
    assert(sql@ =~= head + id_list(ids@.take(0)));
    while i < ids.len()
        invariant
            i <= ids.len(),
            sql@ == head + id_list(ids@.take(i as int)),
        decreases ids.len() - i,
    {
        let ghost before = ids@.take(i as int);
        let ghost next = ids@.take(i + 1);
        assert(next.drop_last() =~= before);
        assert(next.last() == ids@[i as int]);
        if i > 0 {
            sql.push(',');
        }
        push_decimal(&mut sql, ids[i]);
        assert(sql@ =~= head + id_list(next));
        i += 1;
    }
    assert(ids@.take(ids.len() as int) =~= ids@);
    push_text(&mut sql, ") AND is_from_me = ");
    push_decimal(&mut sql, is_from_me as i64);
    push_text(&mut sql, " AND text IS NOT NULL AND length(text) > 0 ORDER BY ROWID ASC;");
    assert(sql@ =~= fetch_sql(last_rowid, is_from_me, ids@));
    let mut args: Vec<String> = Vec::new();
    args.push(String::from_str("-json"));
    args.push(String::from_str(db_path));
    args.push(string_of(&sql));
    let c = Invocation { program: String::from_str("sqlite3"), args };
    assert(c@.args =~= seq!["-json"@, db_path@, fetch_sql(last_rowid, is_from_me, ids@)]);
    Some(c)
}

/// The command that fetches the rows written by the other party.
pub fn fetch_inbound(db_path: &str, last_rowid: i64, ids: &Vec<i64>) -> (r: Option<Invocation>)
    ensures
        match r {
            Some(c) => ids.len() > 0 && c@ == (InvocationView {
                program: "sqlite3"@,
                args: seq!["-json"@, db_path@, fetch_sql(last_rowid, 0, ids@)],
            }),
            None => ids.len() == 0,
        },
{
    fetch_messages(db_path, last_rowid, 0, ids)
}

/// The command that fetches the rows written by the operator's own devices.
pub fn fetch_self(db_path: &str, last_rowid: i64, ids: &Vec<i64>) -> (r: Option<Invocation>)
    ensures
        match r {
            Some(c) => ids.len() > 0 && c@ == (InvocationView {
                program: "sqlite3"@,
                args: seq!["-json"@, db_path@, fetch_sql(last_rowid, 1, ids@)],
            }),
            None => ids.len() == 0,
        },
{
    fetch_messages(db_path, last_rowid, 1, ids)
}

/// The tailer's cursors: for each class of row, the number of the last row
/// that became a fact. Both start at the highest row number that the log
/// held at startup, so that nothing older is ever replayed.
#[derive(Debug)]
pub struct Tailer {
    last_inbound_rowid: i64,
    last_self_rowid: i64,
}

/// The cursors as plain numbers.
pub struct TailerView {
    /// The cursor of the rows written by the other party.
    pub inbound: i64,
    /// The cursor of the rows written by the operator's own devices.
    pub own: i64,
}

impl View for Tailer {
    type V = TailerView;

    closed spec fn view(&self) -> TailerView {
        TailerView { inbound: self.last_inbound_rowid, own: self.last_self_rowid }
    }
}

/// A fact that waits to be appended: the text of one message, with the row
/// that it was read from.
#[derive(Debug)]
pub struct Pending {
    /// The number of the row.
    pub rowid: i64,
    /// Whether the row was written by the operator's own devices.
    pub from_me: bool,
    /// The text of the message.
    pub text: String,
    /// The highest row of the other class that holds the same message and
    /// was left out in favour of this one.
    pub twin: Option<i64>,
}

/// A pending fact as plain values.
pub struct PendingView {
    pub rowid: i64,
    pub from_me: bool,
    pub text: Seq<char>,
    pub twin: Option<i64>,
}

impl View for Pending {
    type V = PendingView;

    open spec fn view(&self) -> PendingView {
        PendingView { rowid: self.rowid, from_me: self.from_me, text: self.text@, twin: self.twin }
    }
}

/// The plain form of a list of pending facts.
pub open spec fn pendings(v: Seq<Pending>) -> Seq<PendingView> {
    Seq::new(v.len(), |i: int| v[i]@)
}

/// Whether a row lies beyond a cursor.
pub open spec fn is_fresh(m: Message, cursor: i64) -> bool {
    m.rowid > cursor
}

/// Whether a fresh row of `others` holds the message `text` under a number
/// higher than `n`.
pub open spec fn outranked(others: Seq<Message>, cursor: i64, text: Seq<char>, n: i64) -> bool {
    exists|j: int|
        0 <= j < others.len() && is_fresh(#[trigger] others[j], cursor) && others[j].text == text
            && others[j].rowid > n
}

/// The highest number below `n` under which a fresh row of `others` holds
/// the message `text`.
pub open spec fn twin_of(others: Seq<Message>, cursor: i64, text: Seq<char>, n: i64) -> Option<
    i64,
>
    decreases others.len(),
{
    if others.len() == 0 {
        None
    } else {
        let rest = twin_of(others.drop_last(), cursor, text, n);
        let m = others.last();
        if is_fresh(m, cursor) && m.text == text && m.rowid < n && (rest is None || rest.unwrap()
            < m.rowid) {
            Some(m.rowid)
        } else {
            rest
        }
    }
}

/// Whether a row becomes a fact: it lies beyond the cursor of its class, and
/// no fresh row of the other class holds the same message under a higher
/// number.
pub open spec fn emits(m: Message, own_cursor: i64, others: Seq<Message>, other_cursor: i64) -> bool {
    is_fresh(m, own_cursor) && !outranked(others, other_cursor, m.text, m.rowid)
}

/// The fact that a row becomes.
pub open spec fn fact_of(m: Message, from_me: bool, others: Seq<Message>, other_cursor: i64) -> PendingView {
    PendingView {
        rowid: m.rowid,
        from_me,
        text: m.text,
        twin: twin_of(others, other_cursor, m.text, m.rowid),
    }
}

/// The facts that the rows of one class become, in the order of the rows.
pub open spec fn pending_of(
    rows: Seq<Message>,
    own_cursor: i64,
    others: Seq<Message>,
    other_cursor: i64,
    from_me: bool,
) -> Seq<PendingView>
    decreases rows.len(),
{
    if rows.len() == 0 {
        Seq::empty()
    } else {
        let rest = pending_of(rows.drop_last(), own_cursor, others, other_cursor, from_me);
        if emits(rows.last(), own_cursor, others, other_cursor) {
            rest.push(fact_of(rows.last(), from_me, others, other_cursor))
        } else {
            rest
        }
    }
}

/// The facts that one poll yields: those of the other party's rows, then
/// those of the operator's own. Where both classes hold the same message,
/// only the row with the higher number becomes a fact.
pub open spec fn poll_spec(t: TailerView, inbound: Seq<Message>, own: Seq<Message>) -> Seq<
    PendingView,
> {
    pending_of(inbound, t.inbound, own, t.own, false) + pending_of(
        own,
        t.own,
        inbound,
        t.inbound,
        true,
    )
}

/// A cursor moved up to a row, if it lies below it.
pub open spec fn raise(cursor: i64, to: Option<i64>) -> i64 {
    match to {
        Some(n) => if n > cursor {
            n
        } else {
            cursor
        },
        None => cursor,
    }
}

/// The cursors after the store answered for one pending fact. A fact that
/// was appended moves the cursor of its class up to its row, and the other
/// cursor up to its twin; a fact that was not leaves both where they are.
pub open spec fn ack_spec(t: TailerView, p: PendingView, appended: bool) -> TailerView {
    if !appended {
        t
    } else if p.from_me {
        TailerView { inbound: raise(t.inbound, p.twin), own: raise(t.own, Some(p.rowid)) }
    } else {
        TailerView { inbound: raise(t.inbound, Some(p.rowid)), own: raise(t.own, p.twin) }
    }
}

/// The cursors after every fact of a list was appended.
pub open spec fn settle_spec(t: TailerView, facts: Seq<PendingView>) -> TailerView
    decreases facts.len(),
{
    if facts.len() == 0 {
        t
    } else {
        ack_spec(settle_spec(t, facts.drop_last()), facts.last(), true)
    }
}

impl Tailer {
    /// A tailer whose cursors stand at `initial`, the highest row number of
    /// the log at startup.
    pub fn new(initial: i64) -> (t: Tailer)
        ensures
            t@ == (TailerView { inbound: initial, own: initial }),
    {
        Tailer { last_inbound_rowid: initial, last_self_rowid: initial }
    }
}

/// The cursor of the rows written by the other party.
pub fn last_inbound_rowid(tailer: &Tailer) -> (r: i64)
    ensures
        r == tailer@.inbound,
{
    tailer.last_inbound_rowid
}

/// The cursor of the rows written by the operator's own devices.
pub fn last_self_rowid(tailer: &Tailer) -> (r: i64)
    ensures
        r == tailer@.own,
{
    tailer.last_self_rowid
}

/// Looks through the rows of the other class for the message `text`: whether
/// a fresh row holds it under a number above `n`, and the highest number
/// below `n` under which a fresh row holds it.
fn scan_others(others: &Vec<(i64, String)>, cursor: i64, text: &str, n: i64) -> (r: (
    bool,
    Option<i64>,
))
    ensures
        r.0 == outranked(messages(others@), cursor, text@, n),
        r.1 == twin_of(messages(others@), cursor, text@, n),
{
    let ghost all = messages(others@);
    let mut found = false;
    let mut twin: Option<i64> = None;
    let mut k: usize = 0;
    assert(all.take(0) =~= Seq::<Message>::empty());
    while k < others.len()
        invariant
            k <= others.len(),
            all == messages(others@),
            found == outranked(all.take(k as int), cursor, text@, n),
            twin == twin_of(all.take(k as int), cursor, text@, n),
        decreases others.len() - k,
    {
        let ghost seen = all.take(k as int);
        let ghost next = all.take(k + 1);
        assert(next.drop_last() =~= seen);
        assert(next.last() == all[k as int]);
        let rowid = others[k].0;
        let same = rowid > cursor && str_eq(others[k].1.as_str(), text);
        proof {
            let hit = is_fresh(all[k as int], cursor) && all[k as int].text == text@
                && all[k as int].rowid > n;
            if outranked(seen, cursor, text@, n) {
                let j = choose|j: int|
                    0 <= j < seen.len() && is_fresh(#[trigger] seen[j], cursor) && seen[j].text
                        == text@ && seen[j].rowid > n;
                assert(next[j] == seen[j]);
            }
            if hit {
                assert(next[k as int] == all[k as int]);
            }
            if outranked(next, cursor, text@, n) {
                let j = choose|j: int|
                    0 <= j < next.len() && is_fresh(#[trigger] next[j], cursor) && next[j].text
                        == text@ && next[j].rowid > n;
                if j < k {
                    assert(seen[j] == next[j]);
                }
            }
            assert(outranked(next, cursor, text@, n) == (outranked(seen, cursor, text@, n)
                || hit));
        }
        if same && rowid > n {
            found = true;
        }
        if same && rowid < n {
            let higher = match twin {
                Some(t) => t < rowid,
                None => true,
            };
            if higher {
                twin = Some(rowid);
            }
        }
        k += 1;
    }
    assert(all.take(others.len() as int) =~= all);
    (found, twin)
}

/// The facts that the rows of one class become.
fn pending_rows(
    out: &mut Vec<Pending>,
    rows: &Vec<(i64, String)>,
    own_cursor: i64,
    others: &Vec<(i64, String)>,
    other_cursor: i64,
    from_me: bool,
)
    ensures
        pendings(final(out)@) == pendings(old(out)@) + pending_of(
            messages(rows@),
            own_cursor,
            messages(others@),
            other_cursor,
            from_me,
        ),
{
    let ghost all = messages(rows@);
    let ghost rest = messages(others@);
    let ghost head = pendings(out@);
    let mut i: usize = 0;
    assert(all.take(0) =~= Seq::<Message>::empty());
    assert(pendings(out@) =~= head + pending_of(
        all.take(0),
        own_cursor,
        rest,
        other_cursor,
        from_me,
    ));
    while i < rows.len()
        invariant
            i <= rows.len(),
            all == messages(rows@),
            rest == messages(others@),
            pendings(out@) == head + pending_of(
                all.take(i as int),
                own_cursor,
                rest,
                other_cursor,
                from_me,
            ),
        decreases rows.len() - i,
    {
        let ghost before = pendings(out@);
        assert(all.take(i + 1).drop_last() =~= all.take(i as int));
        assert(all.take(i + 1).last() == all[i as int]);
        let rowid = rows[i].0;
        if rowid > own_cursor {
            let (hidden, twin) = scan_others(others, other_cursor, rows[i].1.as_str(), rowid);
            if !hidden {
                out.push(Pending { rowid, from_me, text: rows[i].1.clone(), twin });
                assert(pendings(out@) =~= before.push(
                    fact_of(all[i as int], from_me, rest, other_cursor),
                ));
            }
        }
        assert(pendings(out@) =~= head + pending_of(
            all.take(i + 1),
            own_cursor,
            rest,
            other_cursor,
            from_me,
        ));
        i += 1;
    }
    assert(all.take(rows.len() as int) =~= all);
}

/// The facts to append after one look at the log. `inbound` holds the rows
/// written by the other party and `own` those of the operator's own devices,
/// each with its number and text. Rows at or below the cursor of their class
/// are passed over, so that a poll that finds nothing new yields nothing.
pub fn poll(tailer: &Tailer, inbound: &Vec<(i64, String)>, own: &Vec<(i64, String)>) -> (r: Vec<
    Pending,
>)
    ensures
        pendings(r@) == poll_spec(tailer@, messages(inbound@), messages(own@)),
{
    let mut r: Vec<Pending> = Vec::new();
    assert(pendings(r@) =~= Seq::<PendingView>::empty());
    pending_rows(
        &mut r,
        inbound,
        tailer.last_inbound_rowid,
        own,
        tailer.last_self_rowid,
        false,
    );
    pending_rows(&mut r, own, tailer.last_self_rowid, inbound, tailer.last_inbound_rowid, true);
    assert(pendings(r@) =~= poll_spec(tailer@, messages(inbound@), messages(own@)));
    r
}

/// Takes the store's answer for one pending fact. No cursor ever moves back.
pub fn acknowledge(tailer: &mut Tailer, pending: &Pending, appended: bool)
    ensures
        final(tailer)@ == ack_spec(old(tailer)@, pending@, appended),
        final(tailer)@.inbound >= old(tailer)@.inbound,
        final(tailer)@.own >= old(tailer)@.own,
{
    if !appended {
        return ;
    }
    let (mine, theirs) = if pending.from_me {
        (tailer.last_self_rowid, tailer.last_inbound_rowid)
    } else {
        (tailer.last_inbound_rowid, tailer.last_self_rowid)
    };
    let mine = if pending.rowid > mine {
        pending.rowid
    } else {
        mine
    };
    let theirs = match pending.twin {
        Some(n) => if n > theirs {
            n
        } else {
            theirs
        },
        None => theirs,
    };
    if pending.from_me {
        tailer.last_self_rowid = mine;
        tailer.last_inbound_rowid = theirs;
    } else {
        tailer.last_inbound_rowid = mine;
        tailer.last_self_rowid = theirs;
    }
}

/// A twin is no lower than any fresh row of the other class that holds the
/// same message under a lower number.
pub proof fn lemma_twin_covers(others: Seq<Message>, cursor: i64, text: Seq<char>, n: i64, j: int)
    requires
        0 <= j < others.len(),
        is_fresh(others[j], cursor),
        others[j].text == text,
        others[j].rowid < n,
    ensures
        twin_of(others, cursor, text, n) is Some,
        twin_of(others, cursor, text, n).unwrap() >= others[j].rowid,
    decreases others.len(),
{
    if j < others.len() - 1 {
        assert(others.drop_last()[j] == others[j]);
        lemma_twin_covers(others.drop_last(), cursor, text, n, j);
    }
}

/// A row that becomes a fact stands among the facts of its class.
pub proof fn lemma_pending_holds(
    rows: Seq<Message>,
    own_cursor: i64,
    others: Seq<Message>,
    other_cursor: i64,
    from_me: bool,
    i: int,
) -> (k: int)
    requires
        0 <= i < rows.len(),
        emits(rows[i], own_cursor, others, other_cursor),
    ensures
        0 <= k < pending_of(rows, own_cursor, others, other_cursor, from_me).len(),
        pending_of(rows, own_cursor, others, other_cursor, from_me)[k] == fact_of(
            rows[i],
            from_me,
            others,
            other_cursor,
        ),
    decreases rows.len(),
{
    let rest = pending_of(rows.drop_last(), own_cursor, others, other_cursor, from_me);
    if i == rows.len() - 1 {
        rest.len() as int
    } else {
        assert(rows.drop_last()[i] == rows[i]);
        lemma_pending_holds(rows.drop_last(), own_cursor, others, other_cursor, from_me, i)
    }
}

/// Rows of which none is fresh become no facts.
pub proof fn lemma_stale_rows_pend_nothing(
    rows: Seq<Message>,
    own_cursor: i64,
    others: Seq<Message>,
    other_cursor: i64,
    from_me: bool,
)
    requires
        forall|i: int| 0 <= i < rows.len() ==> !is_fresh(#[trigger] rows[i], own_cursor),
    ensures
        pending_of(rows, own_cursor, others, other_cursor, from_me) == Seq::<PendingView>::empty(),
    decreases rows.len(),
{
    if rows.len() > 0 {
        assert forall|i: int| 0 <= i < rows.drop_last().len() implies !is_fresh(
            #[trigger] rows.drop_last()[i],
            own_cursor,
        ) by {
            assert(rows.drop_last()[i] == rows[i]);
        }
        lemma_stale_rows_pend_nothing(rows.drop_last(), own_cursor, others, other_cursor, from_me);
    }
}

/// Once every fact of a list was appended, no cursor stands lower than
/// before, the cursor of each fact's class has reached its row, and the
/// other cursor its twin.
pub proof fn lemma_settle_covers(t: TailerView, facts: Seq<PendingView>, k: int)
    requires
        0 <= k < facts.len(),
    ensures
        settle_spec(t, facts).inbound >= t.inbound,
        settle_spec(t, facts).own >= t.own,
        facts[k].from_me ==> settle_spec(t, facts).own >= facts[k].rowid && settle_spec(
            t,
            facts,
        ).inbound >= raise(t.inbound, facts[k].twin),
        !facts[k].from_me ==> settle_spec(t, facts).inbound >= facts[k].rowid && settle_spec(
            t,
            facts,
        ).own >= raise(t.own, facts[k].twin),
    decreases facts.len(),
{
    lemma_settle_grows(t, facts.drop_last());
    if k < facts.len() - 1 {
        assert(facts.drop_last()[k] == facts[k]);
        lemma_settle_covers(t, facts.drop_last(), k);
    }
}

/// Appending facts moves no cursor back.
pub proof fn lemma_settle_grows(t: TailerView, facts: Seq<PendingView>)
    ensures
        settle_spec(t, facts).inbound >= t.inbound,
        settle_spec(t, facts).own >= t.own,
    decreases facts.len(),
{
    if facts.len() > 0 {
        lemma_settle_grows(t, facts.drop_last());
    }
}

/// The rows of one class of a poll, and the cursor of that class.
pub open spec fn class_rows(from_me: bool, inbound: Seq<Message>, own: Seq<Message>) -> Seq<
    Message,
> {
    if from_me {
        own
    } else {
        inbound
    }
}

/// The cursor of one class.
pub open spec fn class_cursor(from_me: bool, t: TailerView) -> i64 {
    if from_me {
        t.own
    } else {
        t.inbound
    }
}

/// For every fresh row there is a row that becomes a fact and holds the same
/// message: one of its own class under no lower a number, or one of the
/// other class under a higher number.
pub proof fn lemma_fact_stands_for(
    t: TailerView,
    inbound: Seq<Message>,
    own: Seq<Message>,
    from_me: bool,
    i: int,
) -> (w: (bool, int))
    requires
        0 <= i < class_rows(from_me, inbound, own).len(),
        is_fresh(class_rows(from_me, inbound, own)[i], class_cursor(from_me, t)),
    ensures
        0 <= w.1 < class_rows(w.0, inbound, own).len(),
        emits(
            class_rows(w.0, inbound, own)[w.1],
            class_cursor(w.0, t),
            class_rows(!w.0, inbound, own),
            class_cursor(!w.0, t),
        ),
        class_rows(w.0, inbound, own)[w.1].text == class_rows(from_me, inbound, own)[i].text,
        w.0 == from_me ==> class_rows(w.0, inbound, own)[w.1].rowid >= class_rows(
            from_me,
            inbound,
            own,
        )[i].rowid,
        w.0 != from_me ==> class_rows(w.0, inbound, own)[w.1].rowid > class_rows(
            from_me,
            inbound,
            own,
        )[i].rowid,
    decreases i64::MAX - class_rows(from_me, inbound, own)[i].rowid,
{
    let m = class_rows(from_me, inbound, own)[i];
    let others = class_rows(!from_me, inbound, own);
    let other_cursor = class_cursor(!from_me, t);
    if emits(m, class_cursor(from_me, t), others, other_cursor) {
        (from_me, i)
    } else {
        let j = choose|j: int|
            0 <= j < others.len() && is_fresh(#[trigger] others[j], other_cursor)
                && others[j].text == m.text && others[j].rowid > m.rowid;
        lemma_fact_stands_for(t, inbound, own, !from_me, j)
    }
}

/// Once every fact of a poll was appended, the cursor of each class has
/// reached every row of that class that the poll was given.
pub proof fn lemma_poll_settles(
    t: TailerView,
    inbound: Seq<Message>,
    own: Seq<Message>,
    from_me: bool,
    i: int,
)
    requires
        0 <= i < class_rows(from_me, inbound, own).len(),
    ensures
        !is_fresh(
            class_rows(from_me, inbound, own)[i],
            class_cursor(from_me, settle_spec(t, poll_spec(t, inbound, own))),
        ),
{
    let facts = poll_spec(t, inbound, own);
    let after = settle_spec(t, facts);
    let m = class_rows(from_me, inbound, own)[i];
    lemma_settle_grows(t, facts);
    if is_fresh(m, class_cursor(from_me, t)) {
        let (cls, at) = lemma_fact_stands_for(t, inbound, own, from_me, i);
        let winner = class_rows(cls, inbound, own)[at];
        let first = pending_of(inbound, t.inbound, own, t.own, false);
        let second = pending_of(own, t.own, inbound, t.inbound, true);
        let k = if cls {
            first.len() + lemma_pending_holds(own, t.own, inbound, t.inbound, true, at)
        } else {
            lemma_pending_holds(inbound, t.inbound, own, t.own, false, at)
        };
        assert(facts[k] == fact_of(
            winner,
            cls,
            class_rows(!cls, inbound, own),
            class_cursor(!cls, t),
        ));
        lemma_settle_covers(t, facts, k);
        if cls != from_me {
            lemma_twin_covers(
                class_rows(from_me, inbound, own),
                class_cursor(from_me, t),
                winner.text,
                winner.rowid,
                i,
            );
        }
    }
}

/// A poll repeated over the same rows, after every fact of the first was
/// appended, yields no fact.
pub proof fn law_replay_yields_nothing(t: TailerView, inbound: Seq<Message>, own: Seq<Message>)
    ensures
        poll_spec(settle_spec(t, poll_spec(t, inbound, own)), inbound, own) == Seq::<
            PendingView,
        >::empty(),
{
    let after = settle_spec(t, poll_spec(t, inbound, own));
    assert forall|i: int| 0 <= i < inbound.len() implies !is_fresh(
        #[trigger] inbound[i],
        after.inbound,
    ) by {
        lemma_poll_settles(t, inbound, own, false, i);
    }
    assert forall|i: int| 0 <= i < own.len() implies !is_fresh(#[trigger] own[i], after.own) by {
        lemma_poll_settles(t, inbound, own, true, i);
    }
    lemma_stale_rows_pend_nothing(inbound, after.inbound, own, after.own, false);
    lemma_stale_rows_pend_nothing(own, after.own, inbound, after.inbound, true);
    assert(poll_spec(after, inbound, own) =~= Seq::<PendingView>::empty());
}

/// Two fresh rows that hold the same message under different numbers, one
/// written by the other party and one by the operator's own devices, become
/// one fact, which bears the higher of the two numbers and stands for the
/// lower row as its twin.
pub proof fn law_twins_collapse(t: TailerView, theirs: Message, mine: Message)
    requires
        is_fresh(theirs, t.inbound),
        is_fresh(mine, t.own),
        theirs.text == mine.text,
        theirs.rowid != mine.rowid,
    ensures
        poll_spec(t, seq![theirs], seq![mine]).len() == 1,
        poll_spec(t, seq![theirs], seq![mine])[0].text == mine.text,
        poll_spec(t, seq![theirs], seq![mine])[0].rowid == (if theirs.rowid > mine.rowid {
            theirs.rowid
        } else {
            mine.rowid
        }),
        poll_spec(t, seq![theirs], seq![mine])[0].from_me == (mine.rowid > theirs.rowid),
        poll_spec(t, seq![theirs], seq![mine])[0].twin == Some(
            if theirs.rowid > mine.rowid {
                mine.rowid
            } else {
                theirs.rowid
            },
        ),
{
    let a = seq![theirs];
    let b = seq![mine];
    assert(a.drop_last() =~= Seq::<Message>::empty());
    assert(b.drop_last() =~= Seq::<Message>::empty());
    assert(a.last() == theirs && b.last() == mine);
    reveal_with_fuel(pending_of, 2);
    reveal_with_fuel(twin_of, 2);
    if theirs.rowid > mine.rowid {
        assert(outranked(a, t.inbound, mine.text, mine.rowid)) by {
            assert(a[0] == theirs);
        }
        assert(!outranked(b, t.own, theirs.text, theirs.rowid));
    } else {
        assert(outranked(b, t.own, theirs.text, theirs.rowid)) by {
            assert(b[0] == mine);
        }
        assert(!outranked(a, t.inbound, mine.text, mine.rowid));
    }
}

/// What may wake the tailer.
#[derive(Debug, Clone, Copy, PartialEq, Eq, Structural)]
pub enum ListenerAction {
    /// Leave the loop.
    Stop,
    /// Take every further change notice that is waiting, then poll once.
    DrainThenPoll,
    /// Poll once.
    Poll,
    /// Go on waiting.
    Wait,
}

/// What the tailer does when it wakes, given which of its wake sources are
/// ready: the shutdown signal comes first, a change of the log's files
/// before the timer. A burst of changes is answered by one poll.
pub fn next_action(shutdown: bool, changed: bool, tick: bool) -> (a: ListenerAction)
    ensures
        a == (if shutdown {
            ListenerAction::Stop
        } else if changed {
            ListenerAction::DrainThenPoll
        } else if tick {
            ListenerAction::Poll
        } else {
            ListenerAction::Wait
        }),
{
    if shutdown {
        ListenerAction::Stop
    } else if changed {
        ListenerAction::DrainThenPoll
    } else if tick {
        ListenerAction::Poll
    } else {
        ListenerAction::Wait
    }
}

/// The suffix of the file that the log's engine writes before the log
/// itself.
pub const WAL_SUFFIX: &'static str = "-wal";

/// Whether a change of the file `name` concerns the log `db_name`: the file
/// is the log itself or its write-ahead companion, and it was created or
/// modified.
pub fn concerns_chat_db(created_or_modified: bool, name: &str, db_name: &str) -> (b: bool)
    ensures
        b == (created_or_modified && (name@ == db_name@ || name@ == db_name@ + WAL_SUFFIX@)),
{
    if !created_or_modified {
        return false;
    }
    if str_eq(name, db_name) {
        return true;
    }
    let mut wal = String::from_str(db_name);
    wal.append(WAL_SUFFIX);
    str_eq(name, wal.as_str())
}

} // verus!
