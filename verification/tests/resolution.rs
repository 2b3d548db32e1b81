use harold::inbound::directory::{AgentAddress, AgentDirectory};
use harold::inbound::router::{route_reply, semantic_prompt, Routing, NO_SESSIONS};
use harold::inbound::tmux::{is_pane_alive, relay_to_tmux_pane, scan_live_panes, strip_control};
use harold::inbound::{
    find_pane, get_last_away_notification_source_agent, get_last_notified_pane,
    get_last_routed_agent, parse_tag, resolve_index, resolve_pane, semantic_resolve,
    set_last_away_notification_source_agent, set_last_notified_pane, set_last_routed_agent,
    RoutingMemory, Want,
};
use harold::inbound::directory::PaneInfo;

fn pane(pane_id: &str, label: &str) -> AgentAddress {
    AgentAddress::TmuxPane {
        pane_id: pane_id.into(),
        label: label.into(),
    }
}

fn two_sessions() -> Vec<AgentAddress> {
    vec![pane("%1", "work:0.0"), pane("%2", "home:0.1")]
}

#[test]
fn tag_parsing_examples() {
    assert_eq!(parse_tag("[main] hello"), (Some("main"), "hello"));
    assert_eq!(parse_tag("[unclosed text"), (None, "[unclosed text"));
    assert_eq!(parse_tag("plain"), (None, "plain"));
}

#[test]
fn tag_parsing_edges() {
    assert_eq!(parse_tag(""), (None, ""));
    assert_eq!(parse_tag("[]"), (Some(""), ""));
    assert_eq!(parse_tag("[a]"), (Some("a"), ""));
    assert_eq!(parse_tag("[a] [b] c "), (Some("a"), "[b] c"));
    assert_eq!(parse_tag(" [a] b"), (None, " [a] b"));
    assert_eq!(parse_tag("[a b]\t x\n"), (Some("a b"), "x"));
    assert_eq!(parse_tag("[\u{e9}t\u{e9}] \u{1F600} ok"), (Some("\u{e9}t\u{e9}"), "\u{1F600} ok"));
    // A body without a tag is handed on untrimmed.
    assert_eq!(parse_tag("  spaced  "), (None, "  spaced  "));
}

#[test]
fn control_stripping_mixes_escape_control_and_text() {
    assert_eq!(strip_control("\x1b[1;32mgo\x1b[0m\x07 on"), "go on");
}

#[test]
fn control_stripping_edges() {
    assert_eq!(strip_control(""), "");
    assert_eq!(strip_control("a\nb"), "a\nb");
    assert_eq!(strip_control("a\r\tb"), "ab");
    // An escape character that opens no sequence is dropped alone.
    assert_eq!(strip_control("a\x1bb"), "ab");
    // A sequence that never ends swallows the rest.
    assert_eq!(strip_control("a\x1b[12;3"), "a");
    assert_eq!(strip_control("a\x1b["), "a");
    assert_eq!(strip_control("x\u{85}y\u{9f}z\u{7f}"), "xyz");
    assert_eq!(strip_control("\u{1F4F1} caf\u{e9}"), "\u{1F4F1} caf\u{e9}");
}

#[test]
fn exact_tag_wins_and_keeps_body() {
    let memory = RoutingMemory::new();
    let panes = vec![pane("%1", "home"), pane("%2", "home:0.1"), pane("%3", "home:0.1")];
    let (hit, body) = resolve_pane(Some("home:0.1"), "  keep me  ", &panes, &memory, None).unwrap();
    assert_eq!(hit.pane_id(), "%2");
    assert_eq!(body, "  keep me  ");
}

#[test]
fn exact_tag_is_case_sensitive_but_substring_is_not() {
    let memory = RoutingMemory::new();
    let panes = vec![pane("%1", "Work:0.0"), pane("%2", "home:0.1")];
    let (hit, _) = resolve_pane(Some("HOME"), "hi", &panes, &memory, None).unwrap();
    assert_eq!(hit.pane_id(), "%2");
    let (hit, _) = resolve_pane(Some("work:0.0"), "hi", &panes, &memory, None).unwrap();
    assert_eq!(hit.pane_id(), "%1");
}

#[test]
fn exact_match_beats_earlier_substring_match() {
    let memory = RoutingMemory::new();
    let panes = vec![pane("%1", "api-server"), pane("%2", "api")];
    let (hit, _) = resolve_pane(Some("api"), "hi", &panes, &memory, None).unwrap();
    assert_eq!(hit.pane_id(), "%2");
}

#[test]
fn first_substring_match_wins() {
    let memory = RoutingMemory::new();
    let panes = vec![pane("%1", "work:0.0"), pane("%2", "work:0.1")];
    let (hit, _) = resolve_pane(Some("work"), "hi", &panes, &memory, None).unwrap();
    assert_eq!(hit.pane_id(), "%1");
}

#[test]
fn unmatched_tag_never_falls_through() {
    let mut memory = RoutingMemory::new();
    let panes = vec![pane("%1", "my-agent:0.0"), pane("%2", "home:0.1")];
    set_last_routed_agent(&mut memory, pane("%1", "my-agent:0.0"));
    set_last_away_notification_source_agent(&mut memory, pane("%2", "home:0.1"));
    let answer = Some("LINE1: home:0.1\nLINE2: hi");
    assert!(resolve_pane(Some("nowhere"), "hi", &panes, &memory, answer).is_none());
    assert!(resolve_index(Some("nowhere"), "hi", &panes, &memory, answer).is_none());
}

#[test]
fn classifier_is_ignored_with_a_single_session() {
    let memory = RoutingMemory::new();
    let panes = vec![pane("%1", "my-agent:0.0")];
    let with = resolve_index(None, "hi", &panes, &memory, Some("LINE1: my-agent:0.0\nLINE2: x"));
    let without = resolve_index(None, "hi", &panes, &memory, None);
    assert_eq!(with, Some((0, "hi".to_string())));
    assert_eq!(with, without);
    assert_eq!(semantic_resolve("hi", &panes, Some("LINE1: my-agent:0.0\nLINE2: x")), None);
    assert_eq!(semantic_resolve("hi", &[], Some("LINE1: my-agent:0.0\nLINE2: x")), None);
}

#[test]
fn classifier_answer_is_read() {
    let panes = two_sessions();
    assert_eq!(
        semantic_resolve("ask home to build", &panes, Some("LINE1: home:0.1\nLINE2: build\n")),
        Some((1, "build".to_string()))
    );
    assert_eq!(
        semantic_resolve("b", &panes, Some("  LINE1: \"WORK\" \r\n  LINE2:  go on  \nmore")),
        Some((0, "go on".to_string()))
    );
    assert_eq!(
        semantic_resolve("b", &panes, Some("'home:0.1'")),
        Some((1, "b".to_string()))
    );
    // The answer may hold the label as well as the label the answer.
    assert_eq!(
        semantic_resolve("b", &panes, Some("pane HOME:0.1 it is")),
        Some((1, "b".to_string()))
    );
}

#[test]
fn classifier_without_opinion() {
    let panes = two_sessions();
    assert_eq!(semantic_resolve("b", &panes, None), None);
    assert_eq!(semantic_resolve("b", &panes, Some("")), None);
    assert_eq!(semantic_resolve("b", &panes, Some("  \n ")), None);
    assert_eq!(semantic_resolve("b", &panes, Some("none")), None);
    assert_eq!(semantic_resolve("b", &panes, Some(" NONE\n")), None);
    assert_eq!(semantic_resolve("b", &panes, Some("LINE1: elsewhere\nLINE2: x")), None);
}

#[test]
fn classifier_beats_memory_and_default() {
    let mut memory = RoutingMemory::new();
    let panes = vec![pane("%1", "my-agent:0.0"), pane("%2", "home:0.1")];
    set_last_routed_agent(&mut memory, pane("%1", "my-agent:0.0"));
    let (hit, body) =
        resolve_pane(None, "to home, hi", &panes, &memory, Some("LINE1: home:0.1\nLINE2: hi")).unwrap();
    assert_eq!(hit.pane_id(), "%2");
    assert_eq!(body, "hi");
}

#[test]
fn sticky_order() {
    let panes = vec![pane("%1", "a:0"), pane("%2", "b:0"), pane("%3", "my-agent:0")];
    let mut memory = RoutingMemory::new();
    assert_eq!(resolve_index(None, "x", &panes, &memory, None), Some((2, "x".to_string())));
    set_last_away_notification_source_agent(&mut memory, pane("%2", "stale label"));
    assert_eq!(resolve_index(None, "x", &panes, &memory, None), Some((1, "x".to_string())));
    set_last_routed_agent(&mut memory, pane("%1", "a:0"));
    assert_eq!(resolve_index(None, "x", &panes, &memory, None), Some((0, "x".to_string())));
    // A dead session in the first slot gives way to the second.
    set_last_routed_agent(&mut memory, pane("%9", "a:0"));
    assert_eq!(resolve_index(None, "x", &panes, &memory, None), Some((1, "x".to_string())));
    // Two dead slots give way to the default name.
    set_last_away_notification_source_agent(&mut memory, pane("%8", "b:0"));
    assert_eq!(resolve_index(None, "x", &panes, &memory, None), Some((2, "x".to_string())));
}

#[test]
fn default_name_ignores_case_and_may_be_absent() {
    let memory = RoutingMemory::new();
    let panes = vec![pane("%1", "work:0"), pane("%2", "The-MY-AGENT:1")];
    assert_eq!(resolve_index(None, "x", &panes, &memory, None), Some((1, "x".to_string())));
    let panes = vec![pane("%1", "work:0"), pane("%2", "home:1")];
    assert_eq!(resolve_index(None, "x", &panes, &memory, None), None);
}

#[test]
fn memory_slots_are_independent() {
    let mut memory = RoutingMemory::new();
    assert!(get_last_routed_agent(&memory).is_none());
    assert!(get_last_away_notification_source_agent(&memory).is_none());
    set_last_routed_agent(&mut memory, pane("%1", "a"));
    assert_eq!(get_last_routed_agent(&memory).unwrap().pane_id(), "%1");
    assert!(get_last_away_notification_source_agent(&memory).is_none());
    set_last_notified_pane(
        &mut memory,
        PaneInfo { pane_id: "%2".into(), label: "b".into() },
    );
    assert_eq!(get_last_routed_agent(&memory).unwrap().label(), "a");
    let noted = get_last_notified_pane(&memory).unwrap();
    assert_eq!((noted.pane_id.as_str(), noted.label.as_str()), ("%2", "b"));
    set_last_routed_agent(&mut memory, pane("%3", "c"));
    assert_eq!(get_last_routed_agent(&memory).unwrap().pane_id(), "%3");
    assert_eq!(get_last_away_notification_source_agent(&memory).unwrap().pane_id(), "%2");
}

#[test]
fn same_target_goes_by_identifier_alone() {
    assert!(pane("%1", "a").same_target(&pane("%1", "b")));
    assert!(!pane("%1", "a").same_target(&pane("%2", "a")));
    let panes = vec![pane("%1", "a"), pane("%2", "b")];
    assert_eq!(find_pane(&panes, &Want::Target("%2")), Some(1));
    assert_eq!(find_pane(&panes, &Want::Label("b")), Some(1));
    assert_eq!(find_pane(&panes, &Want::Label("B")), None);
    assert_eq!(find_pane(&panes, &Want::LabelContains("")), Some(0));
}

#[test]
fn scenario_tagged_reply_reaches_home() {
    let mut memory = RoutingMemory::new();
    let state = route_reply("[home] build is green");
    assert!(matches!(&state, Routing::Discover { text } if text == "[home] build is green"));
    let state = state.sessions(two_sessions(), &memory);
    match &state {
        Routing::Probe { panes, chosen, cleaned } => {
            assert_eq!(panes[*chosen].label(), "home:0.1");
            assert_eq!(cleaned, "build is green");
        }
        other => panic!("unexpected {:?}", other),
    }
    assert!(!state.is_final());
    let state = state.probed(true, &mut memory);
    assert!(state.is_final());
    match state {
        Routing::Deliver { target, text, confirmation } => {
            assert_eq!(target.pane_id(), "%2");
            assert_eq!(text, "\u{1F4F1} build is green");
            assert_eq!(confirmation, "\u{2713} Delivered to [home:0.1]");
        }
        other => panic!("unexpected {:?}", other),
    }
    assert_eq!(get_last_routed_agent(&memory).unwrap().pane_id(), "%2");
}

#[test]
fn scenario_single_session_by_default_name() {
    let mut memory = RoutingMemory::new();
    let state = route_reply("hello there").sessions(vec![pane("%1", "my-agent:0.0")], &memory);
    match &state {
        Routing::Probe { panes, chosen, cleaned } => {
            assert_eq!(panes[*chosen].label(), "my-agent:0.0");
            assert_eq!(cleaned, "hello there");
        }
        other => panic!("unexpected {:?}", other),
    }
    match state.probed(true, &mut memory) {
        Routing::Deliver { target, .. } => assert_eq!(target.label(), "my-agent:0.0"),
        other => panic!("unexpected {:?}", other),
    }
}

#[test]
fn scenario_no_sessions_is_reported_distinctly() {
    let mut memory = RoutingMemory::new();
    set_last_routed_agent(&mut memory, pane("%1", "my-agent:0.0"));
    for text in ["[home] hi", "hi"] {
        match route_reply(text).sessions(vec![], &memory) {
            Routing::Report { message } => {
                assert_eq!(message, "No active agent sessions found.");
                assert_eq!(message, NO_SESSIONS);
            }
            other => panic!("unexpected {:?}", other),
        }
    }
}

#[test]
fn no_match_reports_list_the_sessions() {
    let memory = RoutingMemory::new();
    match route_reply("[nope] hi").sessions(two_sessions(), &memory) {
        Routing::Report { message } => {
            assert_eq!(message, "No pane matching 'nope'. Available: work:0.0, home:0.1")
        }
        other => panic!("unexpected {:?}", other),
    }
    match route_reply("hi").sessions(vec![pane("%1", "work:0.0")], &memory) {
        Routing::Report { message } => {
            assert_eq!(message, "No active pane found. Available: work:0.0")
        }
        other => panic!("unexpected {:?}", other),
    }
}

#[test]
fn classifier_is_asked_only_to_disambiguate() {
    let memory = RoutingMemory::new();
    assert!(matches!(
        route_reply("hi").sessions(two_sessions(), &memory),
        Routing::Classify { .. }
    ));
    assert!(matches!(
        route_reply("[work] hi").sessions(two_sessions(), &memory),
        Routing::Probe { .. }
    ));
    assert!(matches!(
        route_reply("hi").sessions(vec![pane("%1", "my-agent:0.0")], &memory),
        Routing::Probe { .. }
    ));
}

#[test]
fn classified_reply_is_routed_or_falls_back() {
    let mut memory = RoutingMemory::new();
    set_last_routed_agent(&mut memory, pane("%1", "work:0.0"));
    let asked = route_reply("ask home: status?").sessions(two_sessions(), &memory);
    let prompt = match &asked {
        Routing::Classify { body, prompt, panes } => {
            assert_eq!(body, "ask home: status?");
            assert_eq!(panes.len(), 2);
            prompt.clone()
        }
        other => panic!("unexpected {:?}", other),
    };
    assert_eq!(prompt, semantic_prompt("ask home: status?", &two_sessions()));
    match asked.classified(Some("LINE1: home:0.1\nLINE2: status?"), &memory) {
        Routing::Probe { chosen, cleaned, .. } => {
            assert_eq!(chosen, 1);
            assert_eq!(cleaned, "status?");
        }
        other => panic!("unexpected {:?}", other),
    }
    let asked = route_reply("status?").sessions(two_sessions(), &memory);
    match asked.classified(None, &memory) {
        Routing::Probe { chosen, cleaned, .. } => {
            assert_eq!(chosen, 0);
            assert_eq!(cleaned, "status?");
        }
        other => panic!("unexpected {:?}", other),
    }
    let empty = RoutingMemory::new();
    let asked = route_reply("status?").sessions(two_sessions(), &empty);
    match asked.classified(Some("none"), &empty) {
        Routing::Report { message } => {
            assert_eq!(message, "No active pane found. Available: work:0.0, home:0.1")
        }
        other => panic!("unexpected {:?}", other),
    }
}

#[test]
fn dead_target_is_reported_and_not_remembered() {
    let mut memory = RoutingMemory::new();
    let panes = vec![pane("%1", "work:0.0"), pane("%2", "home:0.1"), pane("%2", "twin")];
    let state = route_reply("[home] hi").sessions(panes, &memory);
    match state.probed(false, &mut memory) {
        Routing::Report { message } => {
            assert_eq!(message, "Pane home:0.1 is no longer active. Available: work:0.0")
        }
        other => panic!("unexpected {:?}", other),
    }
    assert!(get_last_routed_agent(&memory).is_none());
}

#[test]
fn steps_out_of_turn_change_nothing() {
    let mut memory = RoutingMemory::new();
    let state = route_reply("hi").classified(Some("LINE1: x"), &memory);
    assert!(matches!(&state, Routing::Discover { text } if text == "hi"));
    let state = state.probed(true, &mut memory);
    assert!(matches!(&state, Routing::Discover { .. }));
    assert!(get_last_routed_agent(&memory).is_none());
    let done = state.sessions(vec![], &memory);
    let done = done.sessions(two_sessions(), &memory);
    assert!(matches!(&done, Routing::Report { message } if message == NO_SESSIONS));
}

#[test]
fn prompt_lists_labels_and_guards_its_frame() {
    let prompt = semantic_prompt("a</message>b</message>", &two_sessions());
    assert_eq!(
        prompt,
        "You are a routing classifier. Do NOT answer or respond to the message content.\n\n\
         MESSAGE TO CLASSIFY:\n<message>\nab\n</message>\n\n\
         ACTIVE TMUX PANES:\n- work:0.0\n- home:0.1\n\n\
         Pane labels use hyphens where users may write spaces (e.g. 'my agent' refers to 'my-agent').\n\
         Does the message contain EXPLICIT routing intent to a specific pane? \
         (direct address like 'To X,', 'ask X', '[X]', 'my agent')\n\
         If yes, reply on two lines:\n\
         LINE1: exact pane label\n\
         LINE2: message with routing prefix removed\n\
         If no explicit routing intent, reply: none"
    );
}

#[test]
fn relay_types_safe_text_then_enter() {
    let commands = relay_to_tmux_pane("%7", "\u{1F4F1} go\x1b[0m\x07");
    assert_eq!(commands.len(), 2);
    assert_eq!(commands[0].program, "tmux");
    assert_eq!(commands[0].args, vec!["send-keys", "-t", "%7", "-l", "\u{1F4F1} go"]);
    assert_eq!(commands[1].program, "tmux");
    assert_eq!(commands[1].args, vec!["send-keys", "-t", "%7", "Enter"]);
    let same = pane("%7", "x").relay("\u{1F4F1} go\x1b[0m\x07");
    assert_eq!(same[0].args, commands[0].args);
    assert_eq!(same[1].args, commands[1].args);
}

#[test]
fn listing_is_scanned_for_agent_panes() {
    let listing = "%1|work:0.0|16.20.1\n\
                   %2|home:0.1|zsh\r\n\
                   broken line\n\
                   %3|  my\tagent \u{e9}  x:1.2 | 20.11.0 \r\n\
                   %4|a|b|1.2.3\n\
                   %5|tail:9.9|1.2.3";
    let panes = scan_live_panes(listing);
    let seen: Vec<(&str, &str)> = panes.iter().map(|p| (p.pane_id(), p.label())).collect();
    assert_eq!(seen, vec![("%1", "work:0.0"), ("%3", "myagent x:1.2"), ("%5", "tail:9.9")]);
    assert!(scan_live_panes("").is_empty());
    let same = AgentDirectory::TmuxProcessScan.discover(listing);
    assert_eq!(same.len(), 3);
}

#[test]
fn directory_commands_and_liveness() {
    let dir = AgentDirectory::TmuxProcessScan;
    let list = dir.discover_command();
    assert_eq!(list.program, "tmux");
    assert_eq!(
        list.args,
        vec![
            "list-panes",
            "-a",
            "-F",
            "#{pane_id}|#{session_name}:#{window_index}.#{pane_index}|#{pane_current_command}"
        ]
    );
    let probe = dir.probe_command(&pane("%4", "x"));
    assert_eq!(probe.program, "tmux");
    assert_eq!(
        probe.args,
        vec!["display-message", "-t", "%4", "-p", "#{pane_current_command}"]
    );
    assert!(dir.is_alive(&pane("%4", "x"), Some("16.20.1\n")));
    assert!(!dir.is_alive(&pane("%4", "x"), Some("zsh\n")));
    assert!(!dir.is_alive(&pane("%4", "x"), None));
    assert!(is_pane_alive(Some(" 1.2.3.4 ")));
    assert!(!is_pane_alive(Some("1.2")));
    assert!(!is_pane_alive(Some("")));
}
