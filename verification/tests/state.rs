use zepi_agent_panel::state::{
    append_assistant_delta, extract_commands, extract_message_text, extract_status_text,
    extract_text, extract_widget_lines,
};
use zepi_agent_panel::{DisplayRow, ExtensionUiResponse, Json, RpcEnvelope, ZepiPanelState};

fn text(value: &str) -> Json {
    Json::Text(value.to_owned())
}

fn object(members: Vec<(&str, Json)>) -> Json {
    Json::Object(members.into_iter().map(|(name, value)| (name.to_owned(), value)).collect())
}

fn message(message_type: &str, payload: Json) -> RpcEnvelope {
    RpcEnvelope {
        message_type: message_type.to_owned(),
        id: None,
        command: None,
        method: None,
        error: None,
        payload,
    }
}

fn applied(lines: &[&str]) -> ZepiPanelState {
    let mut state = ZepiPanelState::new();
    for line in lines {
        state.apply_json_line(line).unwrap();
    }
    state
}

#[test]
fn streams_assistant_delta_into_single_row() {
    let mut state = ZepiPanelState::new();

    state.apply_json_line(r#"{"type":"message_update","assistantMessageEvent":{"type":"text_delta","delta":"hel"}}"#).unwrap();
    state.apply_json_line(r#"{"type":"message_update","assistantMessageEvent":{"type":"text_delta","delta":"lo"}}"#).unwrap();

    assert_eq!(state.rows(), &[DisplayRow::Assistant("hello".to_owned())]);
}

#[test]
fn records_get_commands_as_slash_completions() {
    let mut state = ZepiPanelState::new();

    state
        .apply_json_line(
            r#"{"type":"response","command":"get_commands","success":true,"data":{"commands":[{"name":"plan"},"/reload","skill"]}}"#,
        )
        .unwrap();

    assert_eq!(state.slash_commands(), &["/plan", "/reload", "/skill"]);
    assert_eq!(state.status(), "3 commands available");
}

#[test]
fn fire_and_forget_extension_ui_requests_do_not_create_responses() {
    let mut state = ZepiPanelState::new();

    state
        .apply_json_line(r#"{"type":"extension_ui_request","id":"status","method":"setStatus","statusText":"Planning"}"#)
        .unwrap();
    state
        .apply_json_line(r#"{"type":"extension_ui_request","id":"widget","method":"setWidget","widgetLines":["A","B"]}"#)
        .unwrap();

    assert_eq!(state.status(), "Planning");
    assert_eq!(state.take_pending_extension_ui_responses(), Vec::new());
    assert_eq!(
        state.rows(),
        &[
            DisplayRow::Status("A".to_owned()),
            DisplayRow::Status("B".to_owned())
        ]
    );
}

#[test]
fn unsupported_blocking_extension_ui_requests_fail_closed() {
    let mut state = ZepiPanelState::new();

    state
        .apply_json_line(r#"{"type":"extension_ui_request","id":"abc","method":"select","message":"Pick one"}"#)
        .unwrap();

    assert_eq!(
        state.take_pending_extension_ui_responses(),
        vec![ExtensionUiResponse {
            message_type: "extension_ui_response",
            id: "abc".to_owned(),
            cancelled: true,
        }]
    );
}

#[test]
fn a_new_state_is_not_connected() {
    let state = ZepiPanelState::new();
    assert_eq!(state.status(), "Not connected");
    assert_eq!(state.rows(), &[]);
    assert!(state.slash_commands().is_empty());
    assert_eq!(ZepiPanelState::default().status(), "");
}

#[test]
fn status_and_rows_are_set_from_outside() {
    let mut state = ZepiPanelState::new();
    state.set_status("Connected".to_owned());
    state.push_error("broken".to_owned());
    state.push_user("hi".to_owned());
    assert_eq!(state.status(), "Connected");
    assert_eq!(
        state.rows(),
        &[DisplayRow::Error("broken".to_owned()), DisplayRow::User("hi".to_owned())]
    );
}

#[test]
fn agent_start_and_end_set_the_status() {
    assert_eq!(applied(&[r#"{"type":"agent_start"}"#]).status(), "Running");
    assert_eq!(applied(&[r#"{"type":"agent_start"}"#, r#"{"type":"agent_end"}"#]).status(), "Idle");
}

#[test]
fn an_empty_or_missing_delta_changes_nothing() {
    let state = applied(&[
        r#"{"type":"message_update","assistantMessageEvent":{"delta":""}}"#,
        r#"{"type":"message_update","assistantMessageEvent":{"delta":7}}"#,
        r#"{"type":"message_update","assistantMessageEvent":"delta"}"#,
        r#"{"type":"message_update"}"#,
    ]);
    assert_eq!(state.rows(), &[]);
}

#[test]
fn a_row_between_two_deltas_parts_them() {
    let state = applied(&[
        r#"{"type":"message_update","assistantMessageEvent":{"delta":"a"}}"#,
        r#"{"type":"tool_execution_start","toolName":"bash"}"#,
        r#"{"type":"message_update","assistantMessageEvent":{"delta":"b"}}"#,
    ]);
    assert_eq!(
        state.rows(),
        &[
            DisplayRow::Assistant("a".to_owned()),
            DisplayRow::Status("Running tool: bash".to_owned()),
            DisplayRow::Assistant("b".to_owned()),
        ]
    );
}

#[test]
fn a_user_message_shows_the_text_of_its_parts() {
    let state = applied(&[
        r#"{"type":"message_start","message":{"role":"user","content":[{"type":"text","text":"a"},{"type":"image"},"x",{"text":"b"}]}}"#,
        r#"{"type":"message_start","message":{"role":"assistant","content":[{"text":"c"}]}}"#,
        r#"{"type":"message_start","message":{"role":"user","content":[]}}"#,
        r#"{"type":"message_start","message":{"role":"user","content":"d"}}"#,
        r#"{"type":"message_start"}"#,
    ]);
    assert_eq!(state.rows(), &[DisplayRow::User("ab".to_owned())]);
}

#[test]
fn a_tool_without_a_name_is_called_tool() {
    let state = applied(&[r#"{"type":"tool_execution_start","toolName":null}"#]);
    assert_eq!(state.rows(), &[DisplayRow::Status("Running tool: tool".to_owned())]);
}

#[test]
fn extension_errors_and_unknown_events_are_shown() {
    let state = applied(&[
        r#"{"type":"extension_error","title":"t","message":"m"}"#,
        r#"{"type":"turn_end"}"#,
    ]);
    assert_eq!(
        state.rows(),
        &[
            DisplayRow::Error("m".to_owned()),
            DisplayRow::Status("Unhandled RPC event: turn_end".to_owned()),
        ]
    );
}

#[test]
fn a_response_shows_its_error_and_nothing_else() {
    let state = applied(&[
        r#"{"type":"response","command":"prompt","error":"no model"}"#,
        r#"{"type":"response","command":"prompt","success":true}"#,
        r#"{"type":"response","command":null,"error":null}"#,
    ]);
    assert_eq!(state.rows(), &[DisplayRow::Error("no model".to_owned())]);
}

#[test]
fn a_command_list_hides_the_error_beside_it() {
    let state = applied(&[r#"{"type":"response","command":"get_commands","error":"late","commands":["a"]}"#]);
    assert_eq!(state.rows(), &[]);
    assert_eq!(state.slash_commands(), &["/a"]);
    assert_eq!(state.status(), "1 commands available");
}

#[test]
fn commands_come_from_data_first() {
    let nested = object(vec![
        ("data", object(vec![("commands", Json::List(vec![text("a")]))])),
        ("commands", Json::List(vec![text("b")])),
    ]);
    assert_eq!(extract_commands(&nested), vec!["/a"]);
    let beside = object(vec![
        ("data", object(vec![])),
        ("commands", Json::List(vec![text("b")])),
    ]);
    assert_eq!(extract_commands(&beside), vec!["/b"]);
    let unlisted = object(vec![
        ("data", object(vec![("commands", Json::Null)])),
        ("commands", Json::List(vec![text("b")])),
    ]);
    assert!(extract_commands(&unlisted).is_empty());
}

#[test]
fn commands_without_a_name_are_left_out() {
    let payload = object(vec![(
        "commands",
        Json::List(vec![
            Json::Number,
            object(vec![("name", Json::Bool(true))]),
            text(""),
            object(vec![("name", text("/x"))]),
        ]),
    )]);
    assert_eq!(extract_commands(&payload), vec!["/", "/x"]);
}

#[test]
fn the_number_of_commands_is_counted_in_decimal() {
    let mut state = ZepiPanelState::new();
    let commands: Vec<Json> = (0..1203).map(|_| text("c")).collect();
    let mut response = message("response", object(vec![("commands", Json::List(commands))]));
    response.command = Some("get_commands".to_owned());
    state.apply_message(response);
    assert_eq!(state.status(), "1203 commands available");
    let mut response = message("response", object(vec![]));
    response.command = Some("get_commands".to_owned());
    state.apply_message(response);
    assert_eq!(state.status(), "0 commands available");
    assert!(state.slash_commands().is_empty());
}

#[test]
fn text_is_taken_from_the_first_member_that_has_it() {
    let payload = object(vec![
        ("title", text("6")),
        ("statusText", text("5")),
        ("status", text("4")),
        ("message", text("3")),
        ("content", Json::List(vec![])),
        ("text", Json::Null),
    ]);
    assert_eq!(extract_text(&payload), "3");
    assert_eq!(extract_status_text(&payload), "5");
    assert_eq!(extract_text(&object(vec![("title", text("6"))])), "6");
    assert_eq!(extract_status_text(&object(vec![("text", text("1"))])), "1");
    assert_eq!(extract_text(&object(vec![])), "");
    assert_eq!(extract_text(&text("loose")), "");
}

#[test]
fn widget_lines_that_are_no_text_are_left_out() {
    let payload = object(vec![(
        "widgetLines",
        Json::List(vec![text("a"), Json::Number, text("b")]),
    )]);
    assert_eq!(extract_widget_lines(&payload), vec!["a", "b"]);
    assert!(extract_widget_lines(&object(vec![("widgetLines", text("a"))])).is_empty());
}

#[test]
fn message_text_joins_its_parts() {
    let parts = object(vec![(
        "content",
        Json::List(vec![
            object(vec![("text", text("a"))]),
            Json::Null,
            object(vec![("text", text("b"))]),
        ]),
    )]);
    assert_eq!(extract_message_text(&parts), "ab");
    assert_eq!(extract_message_text(&Json::Null), "");
}

#[test]
fn a_delta_goes_on_where_the_assistant_spoke_last() {
    let mut rows = vec![DisplayRow::User("q".to_owned())];
    append_assistant_delta(&mut rows, "a".to_owned());
    append_assistant_delta(&mut rows, "b".to_owned());
    assert_eq!(
        rows,
        vec![DisplayRow::User("q".to_owned()), DisplayRow::Assistant("ab".to_owned())]
    );
}

#[test]
fn ui_requests_show_what_they_ask_for() {
    let state = applied(&[
        r#"{"type":"extension_ui_request","id":"1","method":"notify","message":"done"}"#,
        r#"{"type":"extension_ui_request","id":"2","method":"setTitle","title":"Zepi"}"#,
        r#"{"type":"extension_ui_request","id":"3","method":"set_editor_text","text":"x"}"#,
    ]);
    assert_eq!(
        state.rows(),
        &[
            DisplayRow::Notification("done".to_owned()),
            DisplayRow::Status("Zepi".to_owned()),
            DisplayRow::Status("Extension updated editor text".to_owned()),
        ]
    );
}

#[test]
fn every_other_ui_request_is_cancelled_once() {
    for method in ["confirm", "input", "select", "editor", "custom", ""] {
        let mut state = ZepiPanelState::new();
        let mut request = message("extension_ui_request", object(vec![]));
        request.id = Some("7".to_owned());
        request.method = Some(method.to_owned());
        state.apply_message(request);
        assert_eq!(
            state.rows(),
            &[DisplayRow::Error(format!("Unsupported extension UI request cancelled: {method}"))]
        );
        let answers = state.take_pending_extension_ui_responses();
        assert_eq!(answers.len(), 1);
        assert_eq!(answers[0].id, "7");
        assert!(answers[0].cancelled);
        assert!(state.take_pending_extension_ui_responses().is_empty());
    }
}

#[test]
fn a_request_without_an_id_or_method_is_shown_but_not_answered() {
    let mut state = applied(&[
        r#"{"type":"extension_ui_request"}"#,
        r#"{"type":"extension_ui_request","id":"","method":"input"}"#,
    ]);
    assert_eq!(
        state.rows(),
        &[
            DisplayRow::Error("Unsupported extension UI request cancelled: unknown".to_owned()),
            DisplayRow::Error("Unsupported extension UI request cancelled: input".to_owned()),
        ]
    );
    assert!(state.take_pending_extension_ui_responses().is_empty());
}

#[test]
fn an_answer_is_written_as_json() {
    let answer = ExtensionUiResponse {
        message_type: "extension_ui_response",
        id: "a\"b\n".to_owned(),
        cancelled: true,
    };
    assert_eq!(
        answer.to_json().unwrap(),
        r#"{"type":"extension_ui_response","id":"a\"b\n","cancelled":true}"#
    );
    let answer = ExtensionUiResponse {
        message_type: "x",
        id: "1".to_owned(),
        cancelled: false,
    };
    assert_eq!(answer.to_json().unwrap(), r#"{"type":"x","id":"1","cancelled":false}"#);
}

#[test]
fn a_refused_line_changes_nothing() {
    let mut state = applied(&[
        r#"{"type":"agent_start"}"#,
        r#"{"type":"extension_ui_request","id":"1","method":"input"}"#,
    ]);
    for line in ["", "[]", "{}", r#"{"type":7}"#, r#"{"type":"agent_end","type":"agent_end"}"#] {
        assert!(state.apply_json_line(line).is_err());
    }
    assert_eq!(state.status(), "Running");
    assert_eq!(state.rows().len(), 1);
    assert_eq!(state.take_pending_extension_ui_responses().len(), 1);
}

#[test]
fn messages_keep_the_rows_before_them() {
    let mut state = ZepiPanelState::new();
    state.push_user("q".to_owned());
    let mut seen = 1;
    for line in [
        r#"{"type":"message_update","assistantMessageEvent":{"delta":"a"}}"#,
        r#"{"type":"message_update","assistantMessageEvent":{"delta":"b"}}"#,
        r#"{"type":"response","error":"e"}"#,
        r#"{"type":"extension_ui_request","method":"setWidget","widgetLines":["A","B"]}"#,
    ] {
        state.apply_json_line(line).unwrap();
        assert!(state.rows().len() >= seen);
        seen = state.rows().len();
        assert_eq!(state.rows()[0], DisplayRow::User("q".to_owned()));
    }
    assert_eq!(seen, 5);
}
