use roger::events::{
    claude_event, opencode_event, parse_claude_line, parse_opencode_line, StreamEvent,
};
use roger::json::Json;

#[test]
fn parse_text_delta() {
    let line = r#"{"type":"stream_event","event":{"type":"content_block_delta","index":0,"delta":{"type":"text_delta","text":"hi"}}}"#;
    match parse_claude_line(line) {
        StreamEvent::Text(t) => assert_eq!(t, "hi"),
        _ => panic!("expected text"),
    }
}

#[test]
fn parse_result_success() {
    let line =
        r#"{"type":"result","subtype":"success","is_error":false,"result":"final answer"}"#;
    match parse_claude_line(line) {
        StreamEvent::Final { text, is_error } => {
            assert_eq!(text.as_deref(), Some("final answer"));
            assert!(!is_error);
        }
        _ => panic!("expected final"),
    }
}

#[test]
fn parse_result_error() {
    let line =
        r#"{"type":"result","subtype":"error_max_turns","is_error":true,"result":"hit limit"}"#;
    match parse_claude_line(line) {
        StreamEvent::Final { is_error, .. } => assert!(is_error),
        _ => panic!("expected final"),
    }
}

#[test]
fn ignores_other_events() {
    for line in [
        r#"{"type":"system","subtype":"init","session_id":"x"}"#,
        r#"{"type":"stream_event","event":{"type":"message_start"}}"#,
        r#"{"type":"rate_limit_event","rate_limit_info":{}}"#,
        "not json",
        "",
    ] {
        assert!(matches!(parse_claude_line(line), StreamEvent::Other));
    }
}

#[test]
fn parse_opencode_text() {
    // Verified shape from `opencode run --format json`.
    let line = r#"{"type":"text","timestamp":1,"sessionID":"s","part":{"id":"p","messageID":"m","sessionID":"s","type":"text","text":"ok"}}"#;
    match parse_opencode_line(line) {
        StreamEvent::Text(t) => assert_eq!(t, "ok"),
        _ => panic!("expected text"),
    }
}

#[test]
fn parse_opencode_ignores_steps() {
    for line in [
        r#"{"type":"step_start","part":{"type":"step-start"}}"#,
        r#"{"type":"step_finish","part":{"type":"step-finish","reason":"stop"}}"#,
        "not json",
    ] {
        assert!(matches!(parse_opencode_line(line), StreamEvent::Other));
    }
}

#[test]
fn parse_opencode_error() {
    let line = r#"{"type":"error","error":{"message":"boom"}}"#;
    match parse_opencode_line(line) {
        StreamEvent::Final { is_error, .. } => assert!(is_error),
        _ => panic!("expected final error"),
    }
}

fn final_of(event: StreamEvent) -> (Option<String>, bool) {
    match event {
        StreamEvent::Final { text, is_error } => (text, is_error),
        _ => panic!("expected final"),
    }
}

fn text_of(event: StreamEvent) -> String {
    match event {
        StreamEvent::Text(t) => t,
        _ => panic!("expected text"),
    }
}

#[test]
fn result_is_an_error_by_flag_or_subtype() {
    for (line, expected) in [
        (r#"{"type":"result"}"#, ("", false)),
        (r#"{"type":"result","result":"r"}"#, ("r", false)),
        (r#"{"type":"result","subtype":"error_during_execution"}"#, ("", true)),
        (r#"{"type":"result","subtype":"success","is_error":true,"result":"r"}"#, ("r", true)),
        (r#"{"type":"result","subtype":7,"is_error":"yes","result":["r"]}"#, ("", false)),
    ] {
        let (text, is_error) = final_of(parse_claude_line(line));
        assert_eq!((text.as_deref(), is_error), (Some(expected.0), expected.1), "{}", line);
    }
}

#[test]
fn text_delta_needs_every_part() {
    for line in [
        r#"{"type":"stream_event"}"#,
        r#"{"type":"stream_event","event":[]}"#,
        r#"{"type":"stream_event","event":{"type":"content_block_delta"}}"#,
        r#"{"type":"stream_event","event":{"type":"content_block_delta","delta":{"type":"thinking_delta","text":"hi"}}}"#,
        r#"{"type":"stream_event","event":{"type":"content_block_delta","delta":{"type":"text_delta","text":1}}}"#,
        r#"{"type":"stream_event","event":{"type":"content_block_stop","delta":{"type":"text_delta","text":"hi"}}}"#,
        r#"{"type":1}"#,
        "[]",
        "null",
        "   ",
    ] {
        assert!(matches!(parse_claude_line(line), StreamEvent::Other), "{}", line);
    }
}

#[test]
fn white_space_around_a_line_does_not_count() {
    let line = " \t\u{a0}{\"type\":\"text\",\"part\":{\"text\":\"x\"}}\u{2003}\r\n";
    assert_eq!(text_of(parse_opencode_line(line)), "x");
}

#[test]
fn opencode_text_may_be_missing() {
    assert_eq!(text_of(parse_opencode_line(r#"{"type":"text"}"#)), "");
    assert_eq!(text_of(parse_opencode_line(r#"{"type":"text","part":{"text":4}}"#)), "");
}

#[test]
fn opencode_error_text_is_json() {
    for (line, expected) in [
        (r#"{"type":"error","error":{"message":"boom"}}"#, r#""boom""#),
        (r#"{"type":"error","error":{"message":{"b":1,"a":[true, null]}}}"#, r#"{"a":[true,null],"b":1}"#),
        (r#"{"type":"error","error":{"code":7}}"#, r#"{"code":7}"#),
        (r#"{"type":"error","error":"plain"}"#, r#""plain""#),
        (r#"{"type":"error",  "x":1.50}"#, r#"{"type":"error","x":1.5}"#),
    ] {
        let (text, is_error) = final_of(parse_opencode_line(line));
        assert_eq!((text.as_deref(), is_error), (Some(expected), true));
    }
}

#[test]
fn json_values_can_be_walked() {
    let json = Json::parse(r#" {"a": {"b": "c"}, "d": true, "a": {"b": "e"}} "#).unwrap();
    let root = json.root();
    assert_eq!(root.get("a").unwrap().get("b").unwrap().as_str(), Some("e"));
    assert_eq!(root.get("d").unwrap().as_bool(), Some(true));
    assert_eq!(root.get("d").unwrap().as_str(), None);
    assert_eq!(root.as_bool(), None);
    assert!(root.get("x").is_none());
    assert!(root.get("d").unwrap().get("x").is_none());
    assert_eq!(root.to_text(), r#"{"a":{"b":"e"},"d":true}"#);
    assert!(Json::parse("{} {}").is_none());
}

#[test]
fn the_two_clis_speak_differently() {
    let json = Json::parse(r#"{"type":"text","part":{"text":"x"}}"#).unwrap();
    assert!(matches!(claude_event(&json), StreamEvent::Other));
    assert_eq!(text_of(opencode_event(&json)), "x");
}

#[test]
fn scalars_print_as_json() {
    for (text, expected) in [
        ("null", "null"),
        ("true", "true"),
        (" false ", "false"),
        ("1.50", "1.5"),
        ("-7", "-7"),
        ("\"plain\"", "\"plain\""),
        ("\"\\/\\u0041\\u000a\\u001F\\\"\"", "\"/A\\n\\u001f\\\"\""),
    ] {
        assert_eq!(Json::parse(text).unwrap().root().to_text(), expected);
    }
}
