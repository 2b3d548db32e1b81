use harold::listener::{
    acknowledge, concerns_chat_db, fetch_inbound, fetch_messages, fetch_self, get_max_rowid,
    last_inbound_rowid, last_self_rowid, max_rowid_query, next_action, poll, qualifying_rows,
    query_messages, ListenerAction, Pending, RawRow, Tailer,
};

fn rows(list: &[(i64, &str)]) -> Vec<(i64, String)> {
    list.iter().map(|(n, t)| (*n, t.to_string())).collect()
}

fn facts(list: &[Pending]) -> Vec<(i64, bool, &str, Option<i64>)> {
    list.iter().map(|p| (p.rowid, p.from_me, p.text.as_str(), p.twin)).collect()
}

fn settle(tailer: &mut Tailer, list: &[Pending]) {
    for p in list {
        acknowledge(tailer, p, true);
    }
}

#[test]
fn json_rows_are_read_and_filtered() {
    let out = "[{\"ROWID\":5,\"text\":\"  hi there \"},\
                {\"ROWID\":6,\"text\":\"\u{1F916} echo\"},\
                {\"ROWID\":7,\"text\":\"   \"},\
                {\"text\":\"no number\"},\
                {\"ROWID\":\"8\",\"text\":\"number as text\"},\
                {\"ROWID\":9,\"text\":12},\
                {\"ROWID\":9.5,\"text\":\"fraction\"},\
                {\"ROWID\":10,\"text\":\"[home] go\",\"extra\":true},\
                7,\
                {\"ROWID\":-3,\"text\":\"x \u{1F916}\"}]";
    let got = query_messages(out.as_bytes());
    assert_eq!(
        got,
        vec![
            (5, "hi there".to_string()),
            (10, "[home] go".to_string()),
            (-3, "x \u{1F916}".to_string())
        ]
    );
}

#[test]
fn unreadable_output_holds_no_rows() {
    assert!(query_messages(b"").is_empty());
    assert!(query_messages(b"not json").is_empty());
    assert!(query_messages(b"{\"ROWID\":1,\"text\":\"a\"}").is_empty());
    assert!(query_messages(b"[{\"ROWID\":1,\"text\":\"a\"}").is_empty());
    assert!(query_messages(b"[]").is_empty());
}

#[test]
fn raw_rows_qualify_by_number_and_text() {
    let raw = vec![
        RawRow { rowid: Some(1), text: Some(" a ".into()) },
        RawRow { rowid: None, text: Some("b".into()) },
        RawRow { rowid: Some(3), text: None },
        RawRow { rowid: Some(4), text: Some("".into()) },
        RawRow { rowid: Some(5), text: Some(" \u{1F916}x".into()) },
        RawRow { rowid: Some(i64::MAX), text: Some("z".into()) },
    ];
    assert_eq!(qualifying_rows(raw), vec![(1, "a".to_string()), (i64::MAX, "z".to_string())]);
    assert!(qualifying_rows(vec![]).is_empty());
}

#[test]
fn fetch_query_is_spelled_out() {
    let c = fetch_messages("/tmp/chat.db", 41, 0, &vec![3, -7, 12]).unwrap();
    assert_eq!(c.program, "sqlite3");
    assert_eq!(
        c.args,
        vec![
            "-json",
            "/tmp/chat.db",
            "SELECT ROWID, text FROM message WHERE ROWID > 41 AND handle_id IN (3,-7,12) \
             AND is_from_me = 0 AND text IS NOT NULL AND length(text) > 0 ORDER BY ROWID ASC;"
        ]
    );
    let c = fetch_self("db", i64::MIN, &vec![i64::MAX]).unwrap();
    assert_eq!(
        c.args[2],
        "SELECT ROWID, text FROM message WHERE ROWID > -9223372036854775808 AND handle_id IN \
         (9223372036854775807) AND is_from_me = 1 AND text IS NOT NULL AND length(text) > 0 \
         ORDER BY ROWID ASC;"
    );
    let c = fetch_inbound("db", 0, &vec![0]).unwrap();
    assert_eq!(
        c.args[2],
        "SELECT ROWID, text FROM message WHERE ROWID > 0 AND handle_id IN (0) AND is_from_me = 0 \
         AND text IS NOT NULL AND length(text) > 0 ORDER BY ROWID ASC;"
    );
    assert!(fetch_messages("db", 1, 0, &vec![]).is_none());
    assert!(fetch_inbound("db", 1, &vec![]).is_none());
    assert!(fetch_self("db", 1, &vec![]).is_none());
}

#[test]
fn highest_row_number_is_parsed_or_zero() {
    let c = max_rowid_query("/tmp/chat.db");
    assert_eq!(c.program, "sqlite3");
    assert_eq!(c.args, vec!["/tmp/chat.db", "SELECT MAX(ROWID) FROM message;"]);
    assert_eq!(get_max_rowid(Some("42\n")), 42);
    assert_eq!(get_max_rowid(Some("  0007 ")), 7);
    assert_eq!(get_max_rowid(Some("+5")), 5);
    assert_eq!(get_max_rowid(Some("-5")), -5);
    assert_eq!(get_max_rowid(Some("9223372036854775807")), i64::MAX);
    assert_eq!(get_max_rowid(Some("-9223372036854775808")), i64::MIN);
    assert_eq!(get_max_rowid(Some("9223372036854775808")), 0);
    assert_eq!(get_max_rowid(Some("-9223372036854775809")), 0);
    assert_eq!(get_max_rowid(Some("99999999999999999999999")), 0);
    assert_eq!(get_max_rowid(Some("")), 0);
    assert_eq!(get_max_rowid(Some("\n")), 0);
    assert_eq!(get_max_rowid(Some("-")), 0);
    assert_eq!(get_max_rowid(Some("+")), 0);
    assert_eq!(get_max_rowid(Some("12a")), 0);
    assert_eq!(get_max_rowid(Some("1 2")), 0);
    assert_eq!(get_max_rowid(Some("--1")), 0);
    assert_eq!(get_max_rowid(None), 0);
}

#[test]
fn cursors_start_at_the_seed() {
    let t = Tailer::new(40);
    assert_eq!(last_inbound_rowid(&t), 40);
    assert_eq!(last_self_rowid(&t), 40);
    // History at or below the seed is never replayed.
    let got = poll(&t, &rows(&[(1, "old"), (40, "edge")]), &rows(&[(39, "mine")]));
    assert!(got.is_empty());
}

#[test]
fn replayed_poll_yields_nothing() {
    let mut t = Tailer::new(10);
    let inbound = rows(&[(11, "a"), (12, "b"), (15, "same")]);
    let own = rows(&[(13, "c"), (14, "same"), (9, "stale")]);
    let first = poll(&t, &inbound, &own);
    assert_eq!(
        facts(&first),
        vec![
            (11, false, "a", None),
            (12, false, "b", None),
            (15, false, "same", Some(14)),
            (13, true, "c", None)
        ]
    );
    settle(&mut t, &first);
    assert_eq!((last_inbound_rowid(&t), last_self_rowid(&t)), (15, 14));
    assert!(poll(&t, &inbound, &own).is_empty());
    assert!(poll(&t, &inbound, &own).is_empty());
}

#[test]
fn twin_rows_collapse_to_the_higher_number() {
    let t = Tailer::new(0);
    let got = poll(&t, &rows(&[(7, "hello")]), &rows(&[(8, "hello")]));
    assert_eq!(facts(&got), vec![(8, true, "hello", Some(7))]);
    let got = poll(&t, &rows(&[(8, "hello")]), &rows(&[(7, "hello")]));
    assert_eq!(facts(&got), vec![(8, false, "hello", Some(7))]);
    // Rows of one class with the same text are two messages.
    let got = poll(&t, &rows(&[(7, "ok"), (9, "ok")]), &rows(&[]));
    assert_eq!(facts(&got), vec![(7, false, "ok", None), (9, false, "ok", None)]);
    // A twin that was seen before hides nothing.
    let t = Tailer::new(7);
    let got = poll(&t, &rows(&[(8, "hello")]), &rows(&[(7, "hello")]));
    assert_eq!(facts(&got), vec![(8, false, "hello", None)]);
}

#[test]
fn collapsed_twin_is_not_offered_again() {
    let mut t = Tailer::new(0);
    let inbound = rows(&[(7, "hello")]);
    let own = rows(&[(8, "hello")]);
    let got = poll(&t, &inbound, &own);
    settle(&mut t, &got);
    assert_eq!((last_inbound_rowid(&t), last_self_rowid(&t)), (7, 8));
    assert!(poll(&t, &inbound, &rows(&[])).is_empty());
}

#[test]
fn failed_append_leaves_the_cursor() {
    let mut t = Tailer::new(0);
    let inbound = rows(&[(1, "a"), (2, "b")]);
    let got = poll(&t, &inbound, &rows(&[]));
    acknowledge(&mut t, &got[0], false);
    assert_eq!(last_inbound_rowid(&t), 0);
    // Nothing later succeeded: the row is offered again.
    assert_eq!(facts(&poll(&t, &inbound, &rows(&[]))).len(), 2);
    // A later row succeeded: the cursor passes the failed one.
    acknowledge(&mut t, &got[1], true);
    assert_eq!(last_inbound_rowid(&t), 2);
    assert!(poll(&t, &inbound, &rows(&[])).is_empty());
}

#[test]
fn cursors_never_move_back() {
    let mut t = Tailer::new(50);
    let late = Pending { rowid: 20, from_me: false, text: "x".into(), twin: Some(10) };
    acknowledge(&mut t, &late, true);
    assert_eq!((last_inbound_rowid(&t), last_self_rowid(&t)), (50, 50));
    let mine = Pending { rowid: 60, from_me: true, text: "x".into(), twin: Some(55) };
    acknowledge(&mut t, &mine, true);
    assert_eq!((last_inbound_rowid(&t), last_self_rowid(&t)), (55, 60));
    let theirs = Pending { rowid: 70, from_me: false, text: "y".into(), twin: None };
    acknowledge(&mut t, &theirs, true);
    assert_eq!((last_inbound_rowid(&t), last_self_rowid(&t)), (70, 60));
}

#[test]
fn unordered_rows_are_settled_all_the_same() {
    let mut t = Tailer::new(0);
    let inbound = rows(&[(9, "z"), (3, "a"), (5, "b")]);
    let got = poll(&t, &inbound, &rows(&[]));
    assert_eq!(got.len(), 3);
    settle(&mut t, &got);
    assert_eq!(last_inbound_rowid(&t), 9);
    assert!(poll(&t, &inbound, &rows(&[])).is_empty());
}

#[test]
fn wake_sources_have_an_order() {
    assert_eq!(next_action(true, true, true), ListenerAction::Stop);
    assert_eq!(next_action(true, false, false), ListenerAction::Stop);
    assert_eq!(next_action(false, true, true), ListenerAction::DrainThenPoll);
    assert_eq!(next_action(false, true, false), ListenerAction::DrainThenPoll);
    assert_eq!(next_action(false, false, true), ListenerAction::Poll);
    assert_eq!(next_action(false, false, false), ListenerAction::Wait);
}

#[test]
fn only_the_log_and_its_companion_are_watched() {
    assert!(concerns_chat_db(true, "chat.db", "chat.db"));
    assert!(concerns_chat_db(true, "chat.db-wal", "chat.db"));
    assert!(!concerns_chat_db(true, "chat.db-shm", "chat.db"));
    assert!(!concerns_chat_db(true, "other.db", "chat.db"));
    assert!(!concerns_chat_db(true, "", "chat.db"));
    assert!(!concerns_chat_db(false, "chat.db", "chat.db"));
    assert!(!concerns_chat_db(false, "chat.db-wal", "chat.db"));
}
