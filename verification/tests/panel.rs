use std::sync::mpsc;
use zepi_agent_panel::{
    CommandStep, DisplayRow, PromptStep, ReportStep, RpcClient, RpcClientEvent, RpcCommand,
    ZepiPanel,
};

fn error(text: &str) -> DisplayRow {
    DisplayRow::Error(text.to_owned())
}

fn link() -> (RpcClient, mpsc::Receiver<String>, mpsc::Receiver<()>) {
    let (stdin, lines) = mpsc::channel();
    let (kill, kills) = mpsc::channel();
    (RpcClient::new(stdin, kill), lines, kills)
}

fn connected() -> (ZepiPanel, mpsc::Receiver<String>, mpsc::Receiver<()>) {
    let (client, lines, kills) = link();
    let mut panel = ZepiPanel::new();
    assert!(panel.begin_start().1.is_none());
    assert!(panel.finish_start(Ok(client)).is_none());
    assert_eq!(lines.try_recv().unwrap(), "{\"type\":\"get_commands\"}\n");
    (panel, lines, kills)
}

fn line(text: &str) -> RpcClientEvent {
    RpcClientEvent::StdoutLine(text.to_owned())
}

#[test]
fn a_new_panel_has_no_link() {
    let panel = ZepiPanel::new();
    assert!(!panel.is_connected());
    assert!(!panel.is_active());
    assert_eq!(panel.rpc_generation(), 0);
    assert_eq!(panel.render_status(), "Status: Not connected");
    assert_eq!(panel.render_slash_commands(), "Slash commands: ");
}

#[test]
fn a_started_panel_asks_for_commands() {
    let (panel, _lines, kills) = connected();
    assert!(panel.is_connected());
    assert_eq!(panel.state().status(), "Connected");
    assert_eq!(panel.state().rows(), &[]);
    assert_eq!(panel.rpc_generation(), 2);
    assert!(kills.try_recv().is_err());
}

#[test]
fn a_link_that_takes_no_commands_is_shown() {
    let (client, lines, _kills) = link();
    drop(lines);
    let mut panel = ZepiPanel::new();
    panel.finish_start(Ok(client));
    assert_eq!(panel.state().status(), "Connected");
    assert_eq!(
        panel.state().rows(),
        &[error("Failed to request Zepi commands: Zepi RPC stdin writer is closed")]
    );
}

#[test]
fn a_link_that_cannot_be_had_is_shown() {
    let mut panel = ZepiPanel::new();
    assert_eq!(panel.begin_start().0, 2);
    assert!(panel.finish_start(Err("no launcher".to_owned())).is_none());
    assert!(!panel.is_connected());
    assert_eq!(panel.state().status(), "Failed to start");
    assert_eq!(panel.state().rows(), &[error("no launcher")]);
}

#[test]
fn stopping_kills_and_forgets_the_link() {
    let (mut panel, lines, kills) = connected();
    let ended = panel.stop_rpc();
    assert!(!panel.is_connected());
    assert_eq!(panel.rpc_generation(), 3);
    assert_eq!(kills.try_iter().count(), 1);
    assert!(ended.is_some());
    drop(ended);
    assert_eq!(kills.try_iter().count(), 1);
    assert!(lines.try_recv().is_err());
    assert!(panel.stop_rpc().is_none());
    assert_eq!(panel.rpc_generation(), 4);
}

#[test]
fn starting_anew_ends_the_link_before() {
    let (mut panel, lines, kills) = connected();
    let (generation, ended) = panel.begin_start();
    assert_eq!(generation, 4);
    assert!(ended.is_some());
    assert_eq!(kills.try_iter().count(), 1);
    assert!(lines.try_recv().is_err());
    assert!(!panel.is_connected());
}

#[test]
fn a_new_link_replaces_the_one_before() {
    let (mut panel, lines, kills) = connected();
    let (client, new_lines, _new_kills) = link();
    let replaced = panel.finish_start(Ok(client));
    assert!(replaced.is_some());
    assert!(kills.try_recv().is_err());
    drop(replaced);
    assert_eq!(kills.try_iter().count(), 1);
    assert!(lines.try_recv().is_err());
    assert_eq!(new_lines.try_iter().count(), 1);
    assert!(panel.finish_start(Err("no launcher".to_owned())).is_none());
    assert!(panel.is_connected());
}

#[test]
fn reports_of_an_earlier_link_do_not_count() {
    let (mut panel, _lines, _kills) = connected();
    let earlier = panel.rpc_generation();
    let (client, _more_lines, _more_kills) = link();
    let (current, _ended) = panel.begin_start();
    assert!(panel.finish_start(Ok(client)).is_none());
    assert!(current > earlier);
    assert!(panel.apply_event_of(earlier, RpcClientEvent::Exited(Some(0))).is_none());
    assert!(panel.apply_event_of(earlier, line("zepi")).is_none());
    assert!(panel.is_connected());
    assert_eq!(panel.state().status(), "Connected");
    assert!(matches!(
        panel.apply_event_of(current, line("zepi")),
        Some(ReportStep::Refused(refused)) if refused == "zepi"
    ));
    assert!(matches!(
        panel.apply_event_of(current, RpcClientEvent::Exited(Some(0))),
        Some(ReportStep::Exited(Some(_)))
    ));
    assert!(!panel.is_connected());
    assert_eq!(panel.state().status(), "Exited");
}

#[test]
fn the_end_of_the_process_sets_the_status() {
    for (code, status) in
        [(Some(0), "Exited"), (Some(1), "Exited with error"), (Some(-1), "Exited with error"), (None, "Terminated")]
    {
        let (mut panel, lines, kills) = connected();
        let step = panel.apply_rpc_event(RpcClientEvent::Exited(code));
        assert!(matches!(step, ReportStep::Exited(Some(_))));
        assert_eq!(panel.state().status(), status);
        assert!(!panel.is_connected());
        assert!(kills.try_recv().is_err());
        drop(step);
        assert_eq!(kills.try_iter().count(), 1);
        assert!(lines.try_recv().is_err());
        let again = panel.apply_rpc_event(RpcClientEvent::Exited(code));
        assert!(matches!(again, ReportStep::Exited(None)));
    }
}

#[test]
fn diagnostics_and_failures_are_shown() {
    let mut panel = ZepiPanel::new();
    panel.apply_rpc_event(RpcClientEvent::StderrLine("warn".to_owned()));
    panel.apply_rpc_event(RpcClientEvent::Failed("pipe".to_owned()));
    assert_eq!(panel.state().rows(), &[error("warn"), error("pipe")]);
}

#[test]
fn a_line_that_is_no_message_is_shown() {
    let (mut panel, lines, kills) = connected();
    for (text, words) in [
        ("zepi", "expected value at line 1 column 1"),
        ("{}", "missing field `type` at line 1 column 2"),
    ] {
        let shown = panel.state().rows().len();
        assert!(matches!(
            panel.apply_rpc_event(line(text)),
            ReportStep::Refused(refused) if refused == text
        ));
        assert_eq!(panel.state().rows().len(), shown);
        panel.apply_refused_line(words.to_owned());
    }
    assert_eq!(
        panel.state().rows(),
        &[
            error("Invalid Zepi RPC JSON: expected value at line 1 column 1"),
            error("Invalid Zepi RPC JSON: missing field `type` at line 1 column 2"),
        ]
    );
    assert!(lines.try_recv().is_err());
    assert!(kills.try_recv().is_err());
}

#[test]
fn only_what_is_due_goes_over_the_link() {
    let (mut panel, lines, kills) = connected();
    for event in [
        RpcClientEvent::StderrLine("warn".to_owned()),
        RpcClientEvent::Failed("pipe".to_owned()),
        line(r#"{"type":"agent_start"}"#),
        line(r#"{"type":"extension_ui_request","id":"n","method":"notify","message":"m"}"#),
    ] {
        assert!(matches!(panel.apply_rpc_event(event), ReportStep::Settled));
    }
    assert!(lines.try_recv().is_err());
    assert!(kills.try_recv().is_err());
    assert_eq!(panel.send_prompt("hi".to_owned()), PromptStep::Settled(true));
    assert_eq!(lines.try_iter().count(), 1);
    panel.stop_rpc();
    assert!(lines.try_recv().is_err());
}

#[test]
fn unsupported_requests_are_answered_at_once() {
    let (mut panel, lines, _kills) = connected();
    panel.apply_rpc_event(line(
        r#"{"type":"extension_ui_request","id":"abc","method":"select","message":"Pick one"}"#,
    ));
    assert_eq!(
        lines.try_recv().unwrap(),
        "{\"type\":\"extension_ui_response\",\"id\":\"abc\",\"cancelled\":true}\n"
    );
    panel.apply_rpc_event(line(r#"{"type":"agent_start"}"#));
    assert!(lines.try_recv().is_err());
    assert_eq!(
        panel.state().rows(),
        &[error("Unsupported extension UI request cancelled: select")]
    );
}

#[test]
fn answers_that_are_not_taken_are_shown() {
    let (mut panel, lines, _kills) = connected();
    drop(lines);
    panel.apply_rpc_event(line(r#"{"type":"extension_ui_request","id":"1","method":"input"}"#));
    assert_eq!(
        panel.state().rows(),
        &[
            error("Unsupported extension UI request cancelled: input"),
            error("Failed to respond to extension UI: Zepi RPC stdin writer is closed"),
        ]
    );
}

#[test]
fn without_a_link_answers_are_dropped() {
    let mut panel = ZepiPanel::new();
    panel.apply_rpc_event(line(r#"{"type":"extension_ui_request","id":"1","method":"input"}"#));
    assert_eq!(
        panel.state().rows(),
        &[error("Unsupported extension UI request cancelled: input")]
    );
    let (client, lines, _kills) = link();
    panel.finish_start(Ok(client));
    panel.apply_rpc_event(line(r#"{"type":"agent_start"}"#));
    assert_eq!(lines.try_iter().count(), 1);
}

#[test]
fn commands_go_over_the_link() {
    let (mut panel, lines, _kills) = connected();
    assert_eq!(panel.send_command(RpcCommand::NewSession), CommandStep::Settled);
    assert_eq!(panel.send_command(RpcCommand::Abort), CommandStep::Settled);
    assert_eq!(lines.try_recv().unwrap(), "{\"type\":\"new_session\"}\n");
    assert_eq!(lines.try_recv().unwrap(), "{\"type\":\"abort\"}\n");
    assert!(lines.try_recv().is_err());
    assert_eq!(panel.state().rows(), &[]);
    drop(lines);
    assert_eq!(panel.send_command(RpcCommand::Abort), CommandStep::Settled);
    assert_eq!(panel.state().rows(), &[error("Zepi RPC stdin writer is closed")]);
}

#[test]
fn a_command_without_a_link_waits_for_one() {
    let mut panel = ZepiPanel::new();
    assert_eq!(
        panel.send_command(RpcCommand::Abort),
        CommandStep::StartFirst(RpcCommand::Abort)
    );
    panel.send_started_command(RpcCommand::Abort);
    assert_eq!(panel.state().rows(), &[]);
    let (client, lines, _kills) = link();
    panel.finish_start(Ok(client));
    panel.send_started_command(RpcCommand::Abort);
    assert_eq!(lines.try_iter().count(), 2);
}

#[test]
fn an_empty_prompt_is_refused() {
    for message in ["", " ", "\n\t\r ", "\u{3000}\u{a0}"] {
        let (mut panel, lines, _kills) = connected();
        assert_eq!(panel.send_prompt(message.to_owned()), PromptStep::Settled(false));
        assert_eq!(panel.state().rows(), &[error("Cannot send an empty prompt")]);
        assert!(lines.try_recv().is_err());
    }
}

#[test]
fn a_prompt_is_sent_and_shown() {
    let (mut panel, lines, _kills) = connected();
    assert_eq!(panel.send_prompt(" hi ".to_owned()), PromptStep::Settled(true));
    assert_eq!(lines.try_recv().unwrap(), "{\"type\":\"prompt\",\"message\":\" hi \"}\n");
    assert_eq!(panel.state().rows(), &[DisplayRow::User(" hi ".to_owned())]);
}

#[test]
fn a_prompt_that_is_not_taken_is_not_shown_as_said() {
    let (mut panel, lines, _kills) = connected();
    drop(lines);
    assert_eq!(panel.send_prompt("hi".to_owned()), PromptStep::Settled(false));
    assert_eq!(panel.state().rows(), &[error("Zepi RPC stdin writer is closed")]);
}

#[test]
fn a_prompt_without_a_link_waits_for_one() {
    let mut panel = ZepiPanel::new();
    assert_eq!(panel.send_prompt("hi".to_owned()), PromptStep::StartFirst("hi".to_owned()));
    assert_eq!(panel.state().rows(), &[]);
    assert!(!panel.send_started_prompt("hi".to_owned()));
    assert_eq!(panel.state().rows(), &[]);
    let (client, lines, _kills) = link();
    panel.finish_start(Ok(client));
    assert!(panel.send_started_prompt("hi".to_owned()));
    assert_eq!(lines.try_iter().count(), 2);
    assert_eq!(panel.state().rows(), &[DisplayRow::User("hi".to_owned())]);
}

#[test]
fn showing_a_panel_without_a_link_starts_one() {
    let mut panel = ZepiPanel::new();
    assert!(panel.set_active(true));
    assert!(panel.is_active());
    assert!(!panel.set_active(false));
    assert!(!panel.is_active());
    let (mut panel, _lines, _kills) = connected();
    assert!(!panel.set_active(true));
    assert!(panel.is_active());
}

#[test]
fn rows_are_shown_with_their_kind() {
    let rows = [
        (DisplayRow::Status("s".to_owned()), "• s"),
        (DisplayRow::Error("e".to_owned()), "! e"),
        (DisplayRow::User("u".to_owned()), "You: u"),
        (DisplayRow::Assistant("a".to_owned()), "Zepi: a"),
        (DisplayRow::Notification("n".to_owned()), "Note: n"),
    ];
    for (row, shown) in rows {
        assert_eq!(ZepiPanel::render_row(&row), shown);
    }
}

#[test]
fn slash_commands_are_shown_in_order() {
    let mut panel = ZepiPanel::new();
    panel.apply_rpc_event(line(r#"{"type":"response","command":"get_commands","commands":["b","/a"]}"#));
    assert_eq!(panel.render_slash_commands(), "Slash commands: /b, /a");
    assert_eq!(panel.render_status(), "Status: 2 commands available");
}
