use harold::inbound::{get_last_away_notification_source_agent, get_last_routed_agent, RoutingMemory};
use harold::inbound::directory::AgentAddress;
use harold::outbound::imessage::{
    last_outgoing_text, notify_away, send_imessage, send_imessage_to, send_raw_imessage,
    split_body, summarise_for_imessage, summary_command, summary_prompt, truncate_body,
};
use harold::outbound::tts::{
    build_short_summary, local_model_reply, notify_at_desk, regex_strip_think,
    short_summary_command,
};
use harold::outbound::{
    is_screen_locked, notified, notify, screen_lock_query, OutboundChannel, Presence, Reports,
};
use harold::settings::{
    AiSettings, ChatDbSettings, GrpcSettings, ImessageSettings, LogSettings, NotifySettings,
    Settings, StoreSettings, TtsSettings,
};
use harold::store::TurnCompleted;
use harold::util::{ai_cli_command, ai_cli_env, query_reply, sanitise_for_applescript, str_eq};

fn turn() -> TurnCompleted {
    TurnCompleted {
        pane_id: "%5".into(),
        pane_label: "work:0.0".into(),
        last_user_prompt: "fix the build".into(),
        assistant_message: "Build fixed.\nShould I deploy?".into(),
        main_context: "harold".into(),
    }
}

fn settings(recipient: Option<&str>) -> Settings {
    Settings {
        grpc: GrpcSettings { host: "127.0.0.1".into(), port: 50051 },
        imessage: ImessageSettings {
            recipient: recipient.map(|r| r.to_string()),
            handle_id: Some(3),
            extra_handle_ids: None,
            self_handle_id: None,
        },
        chat_db: ChatDbSettings { path: "~/chat.db".into() },
        ai: AiSettings { cli_path: None, local_model: None, local_model_dir: None },
        tts: TtsSettings { command: "say".into(), voice: Some("Daniel".into()), args: None },
        log: LogSettings { level: "info".into() },
        store: StoreSettings { path: "~/store".into() },
        notify: NotifySettings::default(),
    }
}

fn presence(locked: bool, active: Option<&str>, own: Option<&str>, pane: Option<&str>) -> Presence {
    Presence {
        screen_locked: locked,
        active_session: active.map(|s| s.to_string()),
        pane_session: own.map(|s| s.to_string()),
        active_pane: pane.map(|s| s.to_string()),
    }
}

const SCRIPT_HEAD: &str = "tell application \"Messages\" to send \"";

#[test]
fn body_split_edges() {
    assert_eq!(split_body(""), ("", None));
    assert_eq!(split_body("  plain  "), ("plain", None));
    assert_eq!(split_body("?"), ("?", None));
    assert_eq!(split_body("A. ?"), ("A.", Some("?")));
    assert_eq!(split_body(" .  Why?  after. "), (".", Some("Why?")));
    // Text after the last question mark belongs to neither part.
    assert_eq!(split_body("Done. Ok? Then. More"), ("Done.", Some("Ok?")));
    assert_eq!(split_body("One? Two?"), ("One? Two?", None));
    assert_eq!(split_body("A. One? Two?"), ("A.", Some("One? Two?")));
    assert_eq!(split_body("   . ?x"), (".", Some("?")));
    assert_eq!(split_body("\u{e9}t\u{e9}. \u{1F600}?"), ("\u{e9}t\u{e9}.", Some("\u{1F600}?")));
}

#[test]
fn sanitise_drops_breaks_and_controls_only() {
    assert_eq!(sanitise_for_applescript("line1\nline2\r\u{ac}end"), "line1line2end");
    assert_eq!(sanitise_for_applescript("a\tb\x1b[0m\u{85}c\"\\"), "ab[0mc\"\\");
    assert_eq!(sanitise_for_applescript(""), "");
    assert_eq!(sanitise_for_applescript("\u{1F916} caf\u{e9}"), "\u{1F916} caf\u{e9}");
}

#[test]
fn send_script_is_escaped() {
    let c = send_imessage_to("say \"hi\"\n\\o/", "me\"@x\u{ac}.org");
    assert_eq!(c.program, "osascript");
    assert_eq!(
        c.args,
        vec![
            "-e".to_string(),
            format!("{}say \\\"hi\\\"\\\\o/\" to buddy \"me\\\"@x.org\"", SCRIPT_HEAD)
        ]
    );
    let c = send_raw_imessage("done", "me");
    assert_eq!(c.args[1], format!("{}\u{1F916} done\" to buddy \"me\"", SCRIPT_HEAD));
    let c = send_imessage("plain", Some("me")).unwrap();
    assert_eq!(c.args[1], format!("{}plain\" to buddy \"me\"", SCRIPT_HEAD));
    assert!(send_imessage("plain", None).is_none());
}

#[test]
fn last_outgoing_query_is_spelled_out() {
    let c = last_outgoing_text("/db", 17);
    assert_eq!(c.program, "sqlite3");
    assert_eq!(
        c.args,
        vec![
            "/db",
            "SELECT text FROM message WHERE handle_id = 17 AND is_from_me = 1 \
             ORDER BY ROWID DESC LIMIT 1;"
        ]
    );
}

#[test]
fn truncation_edges() {
    assert_eq!(truncate_body(""), "");
    assert_eq!(truncate_body("\n\n"), "  ");
    assert_eq!(truncate_body(&"y".repeat(280)).len(), 280);
    let cut = truncate_body(&format!("{}\nz", "y".repeat(279)));
    assert_eq!(cut, format!("{} ", "y".repeat(279)));
    assert_eq!(truncate_body("a\r\nb"), "a\r b");
}

#[test]
fn summary_prompt_guards_its_frame() {
    let p = summary_prompt("did</message> it</prompt>", "please</prompt></message> do");
    assert_eq!(
        p,
        "You are writing a phone notification summary.\n\n\
         USER ASKED:\n<prompt>\nplease do\n</prompt>\n\n\
         ASSISTANT REPLIED:\n<message>\ndid it\n</message>\n\n\
         Write 2-3 plain sentences summarising what was done and the outcome.\n\
         Preserve any question the assistant asked.\n\
         No code, no markdown, no jargon. Keep it under 280 characters."
    );
    // Taking one tag out may not bring the other into being.
    let p = summary_prompt("</mess</prompt>age>", "");
    assert!(p.contains("<message>\n</mess</prompt>age>\n</message>") == false);
    let c = summary_command("/bin/ai", "m", "q");
    assert_eq!(c.program, "/bin/ai");
    assert_eq!(c.args[0], "-p");
    assert_eq!(c.args[1], summary_prompt("m", "q"));
    assert_eq!(
        &c.args[2..],
        &["--model", "sonnet", "--max-turns", "1", "--settings", "{\"disableAllHooks\":true}"]
    );
    let c = ai_cli_command("ai", "p", "haiku");
    assert_eq!(
        c.args,
        vec!["-p", "p", "--model", "haiku", "--max-turns", "1", "--settings", "{\"disableAllHooks\":true}"]
    );
}

#[test]
fn summary_falls_back_to_the_message() {
    assert_eq!(summarise_for_imessage("a\nb", None), "a b");
    assert_eq!(summarise_for_imessage("a\nb", Some("  \n")), "a b");
    assert_eq!(summarise_for_imessage("a\nb", Some(" All\nfine. \n")), "All fine.");
    assert_eq!(summarise_for_imessage("a", Some(&"s".repeat(400))).len(), 280);
}

#[test]
fn away_notification_with_question() {
    let (commands, source) = notify_away(&turn(), Some("me"), " Build fixed. Should I deploy? ", None);
    let scripts: Vec<&str> = commands.iter().map(|c| c.args[1].as_str()).collect();
    assert_eq!(
        scripts,
        vec![
            format!("{}\u{1F916} [work:0.0] Build fixed. (harold)\" to buddy \"me\"", SCRIPT_HEAD),
            format!("{}\u{1F916} Should I deploy?\" to buddy \"me\"", SCRIPT_HEAD)
        ]
    );
    let source = source.unwrap();
    assert_eq!((source.pane_id(), source.label()), ("%5", "work:0.0"));
}

#[test]
fn away_notification_without_question() {
    let (commands, source) = notify_away(&turn(), Some("me"), "All done.", Some("something else"));
    assert_eq!(commands.len(), 1);
    assert_eq!(commands[0].program, "osascript");
    assert_eq!(commands[0].args[0], "-e");
    assert_eq!(
        commands[0].args[1],
        format!("{}\u{1F916} [work:0.0] All done. (harold)\" to buddy \"me\"", SCRIPT_HEAD)
    );
    assert!(source.is_some());
}

#[test]
fn away_notification_is_not_repeated() {
    for last in [
        "[work:0.0] All done. (harold)",
        "\u{1F916} [work:0.0] All done. (harold)\n",
        "  \u{1F916}\u{1F916}   [work:0.0] All done. (harold)  ",
    ] {
        let (commands, source) = notify_away(&turn(), Some("me"), "All done.", Some(last));
        assert!(commands.is_empty(), "{last}");
        assert!(source.is_none());
    }
    let (commands, _) =
        notify_away(&turn(), Some("me"), "All done.", Some("[work:0.0] All done (harold)"));
    assert_eq!(commands.len(), 1);
}

#[test]
fn away_notification_needs_a_recipient() {
    let (commands, source) = notify_away(&turn(), None, "All done.", None);
    assert!(commands.is_empty());
    assert!(source.is_none());
}

#[test]
fn reasoning_is_stripped() {
    assert_eq!(regex_strip_think("plain"), "plain");
    assert_eq!(regex_strip_think("  a <think>x</think>  b  "), "a b");
    assert_eq!(regex_strip_think("<think>x</think>one<think>y</think>\n two"), "onetwo");
    assert_eq!(regex_strip_think("keep <think>never closed"), "keep");
    assert_eq!(regex_strip_think("<think></think>"), "");
    assert_eq!(regex_strip_think(""), "");
    // The closing tag is looked for from the start of what is left.
    assert_eq!(regex_strip_think("a</think>b<think>c"), "a</think>bb");
    assert_eq!(regex_strip_think("a</think> b<think>c</think>d"), "a</think> bbd");
}

#[test]
fn local_model_answer_between_markers() {
    let out = "intro\n==========\n  \"Fixed the\n build\" \n==========\nPrompt: 5 tokens\n";
    assert_eq!(local_model_reply(out), Some("Fixed the build".to_string()));
    let out = "==========\n<think>hm</think> 'Done'\n";
    // The quotes are taken off before the reasoning is.
    assert_eq!(local_model_reply(out), Some("'Done".to_string()));
    let out = "==========\n'Done'\n==========";
    assert_eq!(local_model_reply(out), Some("Done".to_string()));
    assert_eq!(local_model_reply("==========\n==========\nlate"), None);
    assert_eq!(local_model_reply(" ========== "), None);
    // A line that merely holds the marker is no marker line.
    assert_eq!(local_model_reply("a ========== b\nc"), None);
    assert_eq!(local_model_reply("==========\na\n\nb"), Some("a  b".to_string()));
}

#[test]
fn local_model_answer_without_markers() {
    assert_eq!(local_model_reply("  \"Tests pass\" \n"), Some("Tests pass".to_string()));
    assert_eq!(local_model_reply(""), None);
    assert_eq!(local_model_reply(" \n "), None);
    assert_eq!(local_model_reply("\"\""), None);
    assert_eq!(local_model_reply("<think>only</think>"), None);
    assert_eq!(local_model_reply(&"w".repeat(250)).unwrap().len(), 200);
    assert_eq!(local_model_reply(&"\u{e9}".repeat(250)).unwrap().chars().count(), 200);
}

#[test]
fn short_summary_and_its_command() {
    assert_eq!(build_short_summary(None), "Work complete");
    assert_eq!(build_short_summary(Some("")), "Work complete");
    assert_eq!(build_short_summary(Some("==========\nBuild fixed\n==========")), "Build fixed");
    let mut t = turn();
    t.last_user_prompt = "r".repeat(600);
    let c = short_summary_command("qwen", &t);
    assert_eq!(c.program, "uv");
    assert_eq!(
        c.args,
        vec![
            "run".to_string(),
            "mlx_lm.generate".to_string(),
            "--model".to_string(),
            "qwen".to_string(),
            "--system-prompt".to_string(),
            "You are a notification assistant. Given a user's last request, write ONLY a brief \
             3-8 word summary of what was completed. Do not include any thinking, explanations, \
             or extra text. Output format: Just the summary message."
                .to_string(),
            "--prompt".to_string(),
            format!(
                "User's last request: {}\n\nWrite a 3-8 word summary of what was done:",
                "r".repeat(500)
            ),
            "--max-tokens".to_string(),
            "20".to_string()
        ]
    );
}

#[test]
fn speech_command_takes_args_voice_and_message() {
    let tts = TtsSettings {
        command: "say".into(),
        voice: Some("Daniel".into()),
        args: Some(vec!["-r".into(), "180".into()]),
    };
    let c = notify_at_desk(&turn(), "Build fixed", &tts);
    assert_eq!(c.program, "say");
    assert_eq!(
        c.args,
        vec![
            "-r",
            "180",
            "-v",
            "Daniel",
            "Build fixed on harold and waiting for further instructions"
        ]
    );
    let tts = TtsSettings { command: "espeak".into(), voice: None, args: None };
    let c = notify_at_desk(&turn(), "", &tts);
    assert_eq!(c.program, "espeak");
    assert_eq!(c.args, vec![" on harold and waiting for further instructions"]);
}

#[test]
fn screen_lock_is_read_from_the_query() {
    let c = screen_lock_query();
    assert_eq!(c.program, "bash");
    assert_eq!(c.args, vec!["-c", "ioreg -n Root -d1 -a | plutil -extract IOConsoleLocked raw -"]);
    assert!(is_screen_locked(Some("true\n")));
    assert!(!is_screen_locked(Some("false\n")));
    assert!(!is_screen_locked(Some("True")));
    assert!(!is_screen_locked(Some("")));
    assert!(!is_screen_locked(None));
}

#[test]
fn channel_follows_the_screen() {
    let s = NotifySettings { skip_if_session_active: false, skip_if_pane_active: false };
    assert_eq!(notify(&turn(), &s, &presence(true, None, None, None)), Some(OutboundChannel::IMessage));
    assert_eq!(notify(&turn(), &s, &presence(false, None, None, None)), Some(OutboundChannel::Tts));
    // With both rules off, nothing in view holds a notification back.
    let all = presence(false, Some("w"), Some("w"), Some("%5"));
    assert_eq!(notify(&turn(), &s, &all), Some(OutboundChannel::Tts));
}

#[test]
fn session_in_view_is_skipped() {
    let s = NotifySettings::default();
    assert!(s.skip_if_session_active);
    assert!(!s.skip_if_pane_active);
    assert_eq!(notify(&turn(), &s, &presence(false, Some("w"), Some("w"), None)), None);
    assert_eq!(notify(&turn(), &s, &presence(true, Some("w"), Some("w"), None)), None);
    assert_eq!(
        notify(&turn(), &s, &presence(true, Some("w"), Some("v"), None)),
        Some(OutboundChannel::IMessage)
    );
    assert_eq!(
        notify(&turn(), &s, &presence(false, None, Some("w"), None)),
        Some(OutboundChannel::Tts)
    );
    assert_eq!(
        notify(&turn(), &s, &presence(false, Some("w"), None, Some("%5"))),
        Some(OutboundChannel::Tts)
    );
}

#[test]
fn pane_in_view_is_skipped_while_unlocked() {
    let s = NotifySettings { skip_if_session_active: false, skip_if_pane_active: true };
    assert_eq!(notify(&turn(), &s, &presence(false, None, None, Some("%5"))), None);
    assert_eq!(
        notify(&turn(), &s, &presence(true, None, None, Some("%5"))),
        Some(OutboundChannel::IMessage)
    );
    assert_eq!(
        notify(&turn(), &s, &presence(false, None, None, Some("%6"))),
        Some(OutboundChannel::Tts)
    );
}

#[test]
fn channels_send_and_name_their_source() {
    let reports = Reports {
        model_output: Some("==========\nBuild fixed\n==========".into()),
        summary_output: Some("Build is fixed. Deploy now?".into()),
        last_outgoing: None,
    };
    let (commands, source) = OutboundChannel::Tts.notify(&turn(), &settings(Some("me")), &reports);
    assert_eq!(commands.len(), 1);
    assert_eq!(commands[0].program, "say");
    assert_eq!(
        commands[0].args,
        vec!["-v", "Daniel", "Build fixed on harold and waiting for further instructions"]
    );
    assert!(source.is_none());

    let (commands, source) = OutboundChannel::IMessage.notify(&turn(), &settings(Some("me")), &reports);
    let scripts: Vec<&str> = commands.iter().map(|c| c.args[1].as_str()).collect();
    assert_eq!(
        scripts,
        vec![
            format!("{}\u{1F916} [work:0.0] Build is fixed. (harold)\" to buddy \"me\"", SCRIPT_HEAD),
            format!("{}\u{1F916} Deploy now?\" to buddy \"me\"", SCRIPT_HEAD)
        ]
    );
    assert_eq!(source.unwrap().pane_id(), "%5");

    let silent = Reports { model_output: None, summary_output: None, last_outgoing: None };
    let (commands, source) = OutboundChannel::IMessage.notify(&turn(), &settings(None), &silent);
    assert!(commands.is_empty());
    assert!(source.is_none());
    let (commands, _) = OutboundChannel::IMessage.notify(&turn(), &settings(Some("me")), &silent);
    assert_eq!(
        commands[0].args[1],
        format!("{}\u{1F916} [work:0.0] Build fixed. (harold)\" to buddy \"me\"", SCRIPT_HEAD)
    );
    assert_eq!(
        commands[1].args[1],
        format!("{}\u{1F916} Should I deploy?\" to buddy \"me\"", SCRIPT_HEAD)
    );
}

#[test]
fn only_a_sent_notification_is_remembered() {
    let mut memory = RoutingMemory::new();
    notified(&mut memory, None);
    assert!(get_last_away_notification_source_agent(&memory).is_none());
    notified(
        &mut memory,
        Some(AgentAddress::TmuxPane { pane_id: "%5".into(), label: "w".into() }),
    );
    assert_eq!(get_last_away_notification_source_agent(&memory).unwrap().pane_id(), "%5");
    assert!(get_last_routed_agent(&memory).is_none());
    notified(&mut memory, None);
    assert_eq!(get_last_away_notification_source_agent(&memory).unwrap().pane_id(), "%5");
}

#[test]
fn environment_is_cut_to_the_allowlist() {
    let vars: Vec<(String, String)> = [
        ("SECRET", "s"),
        ("PATH", "/bin"),
        ("path", "lower"),
        ("HOME", "/root"),
        ("LANG", "C"),
        ("PATH", "/again"),
        ("LC_ALL", ""),
        ("TMPDIR", "/tmp"),
        ("ANTHROPIC_API_KEY", "k"),
        ("LC_ALL2", "x"),
    ]
    .iter()
    .map(|(k, v)| (k.to_string(), v.to_string()))
    .collect();
    let kept = ai_cli_env(vars);
    let kept: Vec<(&str, &str)> = kept.iter().map(|(k, v)| (k.as_str(), v.as_str())).collect();
    assert_eq!(
        kept,
        vec![
            ("PATH", "/bin"),
            ("HOME", "/root"),
            ("LANG", "C"),
            ("PATH", "/again"),
            ("LC_ALL", ""),
            ("TMPDIR", "/tmp"),
            ("ANTHROPIC_API_KEY", "k")
        ]
    );
    assert!(ai_cli_env(vec![]).is_empty());
}

#[test]
fn replies_are_trimmed_or_absent() {
    assert_eq!(query_reply(Some(" main \n")), Some("main".to_string()));
    assert_eq!(query_reply(Some(" \n")), None);
    assert_eq!(query_reply(Some("")), None);
    assert_eq!(query_reply(None), None);
    assert!(str_eq("a\u{e9}", "a\u{e9}"));
    assert!(!str_eq("a", "ab"));
    assert!(!str_eq("ab", "ac"));
    assert!(str_eq("", ""));
}
