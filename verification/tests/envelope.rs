use zepi_agent_panel::envelope::Field;
use zepi_agent_panel::json::read_json;
use zepi_agent_panel::members::member_names;
use zepi_agent_panel::{Json, LineError, RpcEnvelope};

fn refused(line: &str) -> LineError {
    RpcEnvelope::from_line(line).unwrap_err()
}

#[test]
fn json_is_read_as_it_is_spelled() {
    assert_eq!(read_json("null"), Some(Json::Null));
    assert_eq!(read_json(" true "), Some(Json::Bool(true)));
    assert_eq!(read_json("-1.5e3"), Some(Json::Number));
    assert_eq!(read_json(r#""ab\n""#), Some(Json::Text("ab\n".to_owned())));
    assert_eq!(
        read_json(r#"[1,"x",[]]"#),
        Some(Json::List(vec![Json::Number, Json::Text("x".to_owned()), Json::List(vec![])]))
    );
    assert_eq!(
        read_json(r#"{"a":{"b":false}}"#),
        Some(Json::Object(vec![(
            "a".to_owned(),
            Json::Object(vec![("b".to_owned(), Json::Bool(false))])
        )]))
    );
}

#[test]
fn members_stand_in_the_order_of_the_text() {
    assert_eq!(
        read_json(r#"{"b":1,"a":null}"#),
        Some(Json::Object(vec![
            ("b".to_owned(), Json::Number),
            ("a".to_owned(), Json::Null),
        ]))
    );
}

#[test]
fn text_that_is_no_json_is_refused() {
    assert_eq!(read_json(""), None);
    assert_eq!(read_json("zepi"), None);
    assert_eq!(read_json("{} {}"), None);
}

#[test]
fn members_are_found_by_name() {
    let value = read_json(r#"{"a":"x","b":["y"],"a":"z"}"#).unwrap();
    assert_eq!(value.text_at("a").unwrap(), "z");
    assert_eq!(value.get("b").unwrap().as_list().unwrap().len(), 1);
    assert!(value.get("c").is_none());
    assert!(value.text_at("b").is_none());
    assert!(Json::Number.get("a").is_none());
    assert!(Json::Null.as_text().is_none());
    assert!(Json::Null.as_list().is_none());
    let repeated = Json::Object(vec![
        ("a".to_owned(), Json::Null),
        ("a".to_owned(), Json::Text("last".to_owned())),
    ]);
    assert_eq!(repeated.text_at("a").unwrap(), "last");
}

#[test]
fn the_names_of_an_object_are_those_of_its_outermost_members() {
    assert_eq!(
        member_names(r#" { "a" : {"x":1,"y":[{"z":2}]} , "b":"c,\"d\":", "a":[1,"e",2] } "#),
        vec!["a", "b", "a"]
    );
    assert_eq!(member_names(r#"{"type":1,"t\\":"{","ü":2}"#), vec!["type", "t\\", "ü"]);
    assert!(member_names("{}").is_empty());
    assert_eq!(
        member_names("\t{\r\n \"\\u0061\" : -1.5E+3 ,\"\\\"\":[ ],\"c\":{ } }\n"),
        vec!["a", "\"", "c"]
    );
}

#[test]
fn an_envelope_has_its_fields_and_a_payload() {
    let message = RpcEnvelope::from_line(
        r#"{"type":"t","id":"i","command":"c","method":"m","error":"e","data":1,"x":"y"}"#,
    )
    .unwrap();
    assert_eq!(message.message_type, "t");
    assert_eq!(message.id.as_deref(), Some("i"));
    assert_eq!(message.command.as_deref(), Some("c"));
    assert_eq!(message.method.as_deref(), Some("m"));
    assert_eq!(message.error.as_deref(), Some("e"));
    assert_eq!(
        message.payload,
        Json::Object(vec![
            ("data".to_owned(), Json::Number),
            ("x".to_owned(), Json::Text("y".to_owned())),
        ])
    );
}

#[test]
fn missing_and_null_fields_are_the_same() {
    let message =
        RpcEnvelope::from_line(r#"{"type":"","id":null,"command":null,"error":null}"#).unwrap();
    assert_eq!(message.message_type, "");
    assert_eq!(message.id, None);
    assert_eq!(message.command, None);
    assert_eq!(message.method, None);
    assert_eq!(message.error, None);
    assert_eq!(message.payload, Json::Object(vec![]));
}

#[test]
fn what_is_no_json_is_no_envelope() {
    for line in ["", "zepi", r#"{"type":"#, r#"{"type":"a"} x"#, r#"{"type":5,}"#] {
        assert_eq!(refused(line), LineError::NotJson);
    }
}

#[test]
fn what_is_no_object_is_no_envelope() {
    for line in ["null", "1", r#""type""#, r#"["type"]"#] {
        assert_eq!(refused(line), LineError::NotAnObject);
    }
}

#[test]
fn a_message_needs_a_type() {
    assert_eq!(refused(r#"{"id":"1"}"#), LineError::MissingType);
    assert_eq!(refused(r#"{"type":null}"#), LineError::NotText(Field::Type));
}

#[test]
fn fields_hold_text() {
    assert_eq!(refused(r#"{"type":"t","id":1}"#), LineError::NotText(Field::Id));
    assert_eq!(refused(r#"{"type":"t","command":[]}"#), LineError::NotText(Field::Command));
    assert_eq!(refused(r#"{"type":"t","method":{}}"#), LineError::NotText(Field::Method));
    assert_eq!(refused(r#"{"type":"t","error":false}"#), LineError::NotText(Field::Error));
}

#[test]
fn fields_occur_once() {
    assert_eq!(refused(r#"{"type":"t","type":"t"}"#), LineError::Repeated(Field::Type));
    assert_eq!(refused(r#"{"id":null,"type":"t","id":null}"#), LineError::Repeated(Field::Id));
    assert_eq!(
        refused(r#"{"type":"t","command":"a","command":"b"}"#),
        LineError::Repeated(Field::Command)
    );
    assert_eq!(
        refused(r#"{"type":"t","method":"a","method":"b"}"#),
        LineError::Repeated(Field::Method)
    );
    assert_eq!(
        refused(r#"{"type":"t","error":"a","error":"b"}"#),
        LineError::Repeated(Field::Error)
    );
}

#[test]
fn other_members_may_be_repeated_and_fields_may_occur_deeper() {
    let message =
        RpcEnvelope::from_line(r#"{"type":"t","x":"a","data":{"type":1,"type":2},"x":"b"}"#).unwrap();
    assert_eq!(message.payload.text_at("x").unwrap(), "b");
    assert!(message.payload.get("data").is_some());
    assert!(message.payload.get("type").is_none());
}

#[test]
fn an_envelope_is_made_of_a_value_and_its_names() {
    let value = Json::Object(vec![("type".to_owned(), Json::Text("t".to_owned()))]);
    let message = RpcEnvelope::from_json(value, &vec!["type".to_owned()]).unwrap();
    assert_eq!(message.message_type, "t");
    let value = Json::Object(vec![("type".to_owned(), Json::Text("t".to_owned()))]);
    let names = vec!["type".to_owned(), "type".to_owned()];
    assert_eq!(
        RpcEnvelope::from_json(value, &names).unwrap_err(),
        LineError::Repeated(Field::Type)
    );
}
