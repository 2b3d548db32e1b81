use harold::projector::{dispatch, dispatch_batch, Dispatch};
use harold::inbound::{get_last_away_notification_source_agent, get_last_routed_agent, set_last_routed_agent, RoutingMemory};
use harold::inbound::directory::AgentAddress;
use harold::settings::{
    db_path, expand_tilde, get_settings, handle_ids, init_settings, AiSettings, ChatDbSettings,
    GrpcSettings, ImessageSettings, LogSettings, NotifySettings, Settings, SettingsCell,
    StoreSettings, TtsSettings,
};
use harold::store::{turn_complete, turn_complete_appended, Fact, ReplyReceived, STREAM_ID};
use harold::tmux::{
    active_pane_in_session, active_tmux_pane, active_tmux_session, is_session_attached,
    pane_session, session_attached_query,
};

fn settings(imessage: ImessageSettings) -> Settings {
    Settings {
        grpc: GrpcSettings { host: "127.0.0.1".into(), port: 50051 },
        imessage,
        chat_db: ChatDbSettings { path: "~/Library/Messages/chat.db".into() },
        ai: AiSettings { cli_path: None, local_model: None, local_model_dir: None },
        tts: TtsSettings { command: "say".into(), voice: None, args: None },
        log: LogSettings { level: "info".into() },
        store: StoreSettings { path: "/var/harold".into() },
        notify: NotifySettings::default(),
    }
}

fn imessage(
    recipient: Option<&str>,
    handle_id: Option<i64>,
    extra: Option<Vec<i64>>,
    own: Option<i64>,
) -> ImessageSettings {
    ImessageSettings {
        recipient: recipient.map(|r| r.to_string()),
        handle_id,
        extra_handle_ids: extra,
        self_handle_id: own,
    }
}

#[test]
fn valid_settings_give_no_error() {
    assert!(settings(imessage(Some("me"), Some(3), None, None)).validate().is_empty());
    assert!(settings(imessage(Some("me"), None, None, Some(9))).validate().is_empty());
    assert!(settings(imessage(Some("me"), Some(0), None, Some(1))).validate().is_empty());
}

#[test]
fn each_fault_has_its_message() {
    assert_eq!(
        settings(imessage(None, Some(3), None, None)).validate(),
        vec!["imessage.recipient is required"]
    );
    let no_handle =
        "imessage.handle_id or imessage.self_handle_id is required to receive messages";
    assert_eq!(settings(imessage(Some("me"), None, None, None)).validate(), vec![no_handle]);
    assert_eq!(settings(imessage(Some("me"), Some(0), None, Some(-1))).validate(), vec![no_handle]);
    // Further conversations do not stand in for the main one.
    assert_eq!(
        settings(imessage(Some("me"), None, Some(vec![4, 5]), None)).validate(),
        vec![no_handle]
    );
    assert_eq!(
        settings(imessage(None, None, None, None)).validate(),
        vec!["imessage.recipient is required", no_handle]
    );
}

#[test]
fn tilde_is_expanded_at_the_front_only() {
    assert_eq!(expand_tilde("~/a/b", Some("/home/me")), "/home/me/a/b");
    assert_eq!(expand_tilde("~/", Some("/home/me")), "/home/me/");
    assert_eq!(expand_tilde("~/a", Some("")), "/a");
    assert_eq!(expand_tilde("~/a", None), "~/a");
    assert_eq!(expand_tilde("~", Some("/home/me")), "~");
    assert_eq!(expand_tilde("~x/a", Some("/home/me")), "~x/a");
    assert_eq!(expand_tilde("/a/~/b", Some("/home/me")), "/a/~/b");
    assert_eq!(expand_tilde("", Some("/home/me")), "");
    assert_eq!(expand_tilde("~/\u{e9}", Some("/h\u{f4}me")), "/h\u{f4}me/\u{e9}");
}

#[test]
fn paths_and_address_are_resolved() {
    let s = settings(imessage(Some("me"), Some(3), None, None));
    assert_eq!(s.chat_db.resolved_path(Some("/Users/me")), "/Users/me/Library/Messages/chat.db");
    assert_eq!(s.chat_db.resolved_path(None), "~/Library/Messages/chat.db");
    assert_eq!(db_path(&s, Some("/Users/me")), "/Users/me/Library/Messages/chat.db");
    assert_eq!(s.store.resolved_path(Some("/Users/me")), "/var/harold");
    assert_eq!(s.grpc.addr(), "127.0.0.1:50051");
    assert_eq!(GrpcSettings { host: "[::1]".into(), port: 0 }.addr(), "[::1]:0");
    assert_eq!(GrpcSettings { host: "h".into(), port: 65535 }.addr(), "h:65535");
}

#[test]
fn conversations_are_listed_once() {
    let ids = |h, e| handle_ids(&settings(imessage(Some("me"), h, e, Some(99))));
    assert_eq!(ids(Some(3), Some(vec![4, 3, 5, 4])), vec![3, 4, 5]);
    assert_eq!(ids(None, Some(vec![7, 7])), vec![7]);
    assert_eq!(ids(Some(3), None), vec![3]);
    assert_eq!(ids(Some(3), Some(vec![])), vec![3]);
    assert!(ids(None, None).is_empty());
}

#[test]
fn settings_cell_is_filled_once_and_read() {
    let mut cell = SettingsCell::new();
    assert!(!cell.is_initialised());
    init_settings(&mut cell, settings(imessage(Some("me"), Some(3), None, None)));
    assert!(cell.is_initialised());
    assert_eq!(get_settings(&cell).grpc.port, 50051);
    assert_eq!(get_settings(&cell).imessage.recipient.as_deref(), Some("me"));
}

#[test]
fn facts_go_to_their_component() {
    assert_eq!(dispatch("TurnCompleted"), Dispatch::Notify);
    assert_eq!(dispatch("ReplyReceived"), Dispatch::Route);
    assert_eq!(dispatch("turncompleted"), Dispatch::Skip);
    assert_eq!(dispatch("TurnCompleted "), Dispatch::Skip);
    assert_eq!(dispatch(""), Dispatch::Skip);
    let kinds: Vec<String> =
        ["ReplyReceived", "Other", "TurnCompleted"].iter().map(|k| k.to_string()).collect();
    assert_eq!(dispatch_batch(&kinds), vec![Dispatch::Route, Dispatch::Skip, Dispatch::Notify]);
    assert!(dispatch_batch(&vec![]).is_empty());
    assert_eq!(STREAM_ID, "harold.events");
}

#[test]
fn front_door_touches_memory_after_the_append_only() {
    let turn = turn_complete("%5", "work:0.0", "fix", "fixed", "harold");
    assert_eq!(turn.pane_id, "%5");
    assert_eq!(turn.pane_label, "work:0.0");
    assert_eq!(turn.last_user_prompt, "fix");
    assert_eq!(turn.assistant_message, "fixed");
    assert_eq!(turn.main_context, "harold");
    let copy = turn.clone();
    assert_eq!(copy.assistant_message, "fixed");
    assert_eq!(ReplyReceived { text: "hi".into() }.clone().text, "hi");

    let mut memory = RoutingMemory::new();
    set_last_routed_agent(
        &mut memory,
        AgentAddress::TmuxPane { pane_id: "%1".into(), label: "a".into() },
    );
    let failed = turn_complete_appended(&mut memory, &turn, false);
    assert_eq!(failed.unwrap_err(), "event store write failed");
    assert!(get_last_away_notification_source_agent(&memory).is_none());

    let done = turn_complete_appended(&mut memory, &turn, true);
    assert!(done.unwrap().accepted);
    let noted = get_last_away_notification_source_agent(&memory).unwrap();
    assert_eq!((noted.pane_id(), noted.label()), ("%5", "work:0.0"));
    assert_eq!(get_last_routed_agent(&memory).unwrap().pane_id(), "%1");
}

#[test]
fn multiplexer_questions() {
    let c = pane_session("%5");
    assert_eq!(c.program, "tmux");
    assert_eq!(c.args, vec!["display-message", "-t", "%5", "-p", "#{session_name}"]);
    let c = session_attached_query("work");
    assert_eq!(c.args, vec!["display-message", "-t", "work", "-p", "#{session_attached}"]);
    let c = active_pane_in_session("work");
    assert_eq!(c.args, vec!["display-message", "-t", "work", "-p", "#{pane_id}"]);
    assert_eq!(active_tmux_session().args, vec!["display-message", "-p", "#{session_name}"]);
    assert_eq!(active_tmux_pane().args, vec!["display-message", "-p", "#{pane_id}"]);
    assert!(is_session_attached(Some("1")));
    assert!(is_session_attached(Some("2")));
    assert!(!is_session_attached(Some("0")));
    assert!(!is_session_attached(None));
}

#[test]
fn recorded_facts_are_dispatched() {
    let turn = Fact::TurnCompleted(turn_complete("%5", "w", "q", "a", "c"));
    let reply = Fact::ReplyReceived(ReplyReceived { text: "hi".into() });
    assert_eq!(turn.kind(), "TurnCompleted");
    assert_eq!(reply.kind(), "ReplyReceived");
    assert_eq!(dispatch(turn.kind()), Dispatch::Notify);
    assert_eq!(dispatch(reply.kind()), Dispatch::Route);
}
