use harold::inbound::directory::{AgentAddress, PaneInfo};
use harold::inbound::tmux::{node_semver_process, strip_control};
use harold::inbound::{parse_tag, resolve_pane, RoutingMemory};

fn panes_of(list: Vec<PaneInfo>) -> Vec<AgentAddress> {
    list.into_iter().map(|p| p.into_address()).collect()
}

#[test]
fn routing_parse_tag_with_tag() {
    let (tag, body) = parse_tag("[main] hello world");
    assert_eq!(tag, Some("main"));
    assert_eq!(body, "hello world");
}

#[test]
fn routing_parse_tag_without_tag() {
    let (tag, body) = parse_tag("just a message");
    assert_eq!(tag, None);
    assert_eq!(body, "just a message");
}

#[test]
fn routing_parse_tag_unclosed_bracket() {
    let (tag, body) = parse_tag("[unclosed message");
    assert_eq!(tag, None);
    assert_eq!(body, "[unclosed message");
}

#[test]
fn routing_resolve_pane_exact_match() {
    let panes = panes_of(vec![
        PaneInfo {
            pane_id: "%1".into(),
            label: "work:0.0".into(),
        },
        PaneInfo {
            pane_id: "%2".into(),
            label: "home:0.1".into(),
        },
    ]);
    let result = resolve_pane(Some("work:0.0"), "hi", &panes, &RoutingMemory::new(), None);
    assert!(result.is_some());
    assert_eq!(result.unwrap().0.pane_id(), "%1");
}

#[test]
fn routing_resolve_pane_substring_match() {
    let panes = panes_of(vec![
        PaneInfo {
            pane_id: "%1".into(),
            label: "work:0.0".into(),
        },
        PaneInfo {
            pane_id: "%2".into(),
            label: "home:0.1".into(),
        },
    ]);
    let result = resolve_pane(Some("home"), "hi", &panes, &RoutingMemory::new(), None);
    assert!(result.is_some());
    assert_eq!(result.unwrap().0.pane_id(), "%2");
}

#[test]
fn routing_resolve_pane_no_tag_falls_back_to_my_agent() {
    let panes = panes_of(vec![PaneInfo {
        pane_id: "%1".into(),
        label: "my-agent:0.0".into(),
    }]);
    let result = resolve_pane(None, "hi", &panes, &RoutingMemory::new(), None);
    assert!(result.is_some());
    assert_eq!(result.unwrap().0.pane_id(), "%1");
}

#[test]
fn routing_resolve_pane_no_match_returns_none() {
    let panes = panes_of(vec![PaneInfo {
        pane_id: "%1".into(),
        label: "work:0.0".into(),
    }]);
    let result = resolve_pane(Some("nonexistent"), "hi", &panes, &RoutingMemory::new(), None);
    assert!(result.is_none());
}

#[test]
fn routing_strip_control_removes_ansi_and_controls() {
    let input = "\x1b[31mred\x1b[0m normal\x01hidden";
    let output = strip_control(input);
    assert_eq!(output, "red normalhidden");
}

#[test]
fn routing_strip_control_removes_lone_control_chars() {
    let input = "clean\x01";
    let output = strip_control(input);
    assert_eq!(output, "clean");
}

#[test]
fn routing_is_claude_code_process_matches_node_version() {
    assert!(node_semver_process("16.20.1"));
    assert!(node_semver_process("20.11.0"));
    assert!(!node_semver_process("python3.11"));
    assert!(!node_semver_process("bash"));
    assert!(!node_semver_process("node"));
}
