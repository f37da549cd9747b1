use session_log::json::{parse_json, Json};
use session_log::events::decode_event;
use session_log::messages::{event_to_message, value_to_string, ContentBlock, EventType, UserContent};

fn message_of(line: &str) -> Option<session_log::messages::SessionMessage> {
    let parsed = parse_json(line).expect("line should parse");
    let ev = decode_event(&parsed).expect("line should decode");
    event_to_message(&ev)
}

#[test]
fn user_text_event_becomes_text_message() {
    let m = message_of(
        r#"{"type":"user","uuid":"u1","sessionId":"s1","timestamp":"2024-01-01T00:00:00Z","gitBranch":"main","message":{"role":"user","content":"ask"}}"#,
    )
    .expect("user events are shown");
    assert_eq!(m.event_type, EventType::User);
    assert_eq!(m.uuid, "u1");
    assert_eq!(m.git_branch.as_deref(), Some("main"));
    match m.user_content {
        Some(UserContent::Text(t)) => assert_eq!(t.text, "ask"),
        other => panic!("wrong content: {other:?}"),
    }
    assert!(m.assistant_content.is_none());
    assert!(m.system_info.is_none());
}

#[test]
fn tool_result_user_event_lists_results() {
    let m = message_of(
        r#"{"type":"user","uuid":"u1","sessionId":"s1","timestamp":"2024-01-01T00:00:00Z","toolUseResult":{"ok":true},"message":{"role":"user","content":[{"type":"tool_result","toolUseId":"t1","content":{"n":1},"isError":true}]}}"#,
    )
    .expect("user events are shown");
    match m.user_content {
        Some(UserContent::ToolResults(tr)) => {
            assert_eq!(tr.results.len(), 1);
            assert_eq!(tr.results[0].tool_use_id, "t1");
            assert_eq!(tr.results[0].content, r#"{"n":1}"#);
            assert_eq!(tr.results[0].is_error, Some(true));
        }
        other => panic!("wrong content: {other:?}"),
    }
}

#[test]
fn assistant_event_keeps_block_order_and_widens_usage() {
    let m = message_of(
        r#"{"type":"assistant","uuid":"u2","sessionId":"s1","timestamp":"2024-01-01T00:00:00Z","message":{"role":"assistant","model":"m0","content":[{"type":"thinking","thinking":"hm"},{"type":"text","text":"yes"},{"type":"tool_use","id":"t1","name":"search","input":{"q":"x"}},{"type":"tool_result","tool_use_id":"t1","content":"found"}],"usage":{"inputTokens":3,"cacheReadInputTokens":9}}}"#,
    )
    .expect("assistant events are shown");
    assert_eq!(m.event_type, EventType::Assistant);
    let ac = m.assistant_content.expect("assistant content");
    assert_eq!(ac.model.as_deref(), Some("m0"));
    assert_eq!(ac.blocks.len(), 4);
    assert!(matches!(&ac.blocks[0], ContentBlock::Thinking(b) if b.thinking == "hm"));
    assert!(matches!(&ac.blocks[1], ContentBlock::Text(b) if b.text == "yes"));
    match &ac.blocks[2] {
        ContentBlock::ToolUse(b) => {
            assert_eq!(b.id, "t1");
            assert_eq!(b.name, "search");
            assert_eq!(b.input, parse_json(r#"{"q":"x"}"#).unwrap());
        }
        other => panic!("wrong block: {other:?}"),
    }
    assert!(matches!(&ac.blocks[3], ContentBlock::ToolResult(b) if b.content == "found"));
    let usage = ac.usage.expect("usage");
    assert_eq!(usage.input_tokens, Some(3));
    assert_eq!(usage.output_tokens, None);
    assert_eq!(usage.cache_read_input_tokens, Some(9));
}

#[test]
fn system_event_keeps_only_system_details() {
    let m = message_of(
        r#"{"type":"system","uuid":"u3","parentUuid":"u2","sessionId":"s1","timestamp":"2024-01-01T00:00:00Z","subtype":"info","durationMs":42}"#,
    )
    .expect("system events are shown");
    assert_eq!(m.event_type, EventType::System);
    assert_eq!(m.parent_uuid.as_deref(), Some("u2"));
    assert!(m.cwd.is_none());
    let si = m.system_info.expect("system info");
    assert_eq!(si.subtype.as_deref(), Some("info"));
    assert_eq!(si.duration_ms, Some(42));
}

#[test]
fn progress_and_snapshot_events_are_not_shown() {
    let progress = message_of(
        r#"{"type":"progress","uuid":"u4","sessionId":"s1","timestamp":"2024-01-01T00:00:00Z","data":{"p":1}}"#,
    );
    assert!(progress.is_none());
    let snapshot =
        message_of(r#"{"type":"file-history-snapshot","messageId":"m1","snapshot":{}}"#);
    assert!(snapshot.is_none());
}

#[test]
fn value_to_string_renders_non_strings_as_json() {
    assert_eq!(value_to_string(&Json::Str("plain".to_string())), "plain");
    assert_eq!(value_to_string(&Json::Null), "null");
    assert_eq!(value_to_string(&Json::Bool(true)), "true");
    let v = parse_json(r#"{"a":[1,"x"],"b":null}"#).unwrap();
    assert_eq!(value_to_string(&v), r#"{"a":[1,"x"],"b":null}"#);
}

#[test]
fn rendering_escapes_string_contents() {
    let v = parse_json(r#"["quote \" and backslash \\ and newline \n"]"#).unwrap();
    assert_eq!(
        value_to_string(&v),
        r#"["quote \" and backslash \\ and newline \n"]"#
    );
    // a control character is written as a unicode escape
    let ctl = Json::Arr(vec![Json::Str("\u{0001}".to_string())]);
    assert_eq!(value_to_string(&ctl), r#"["\u0001"]"#);
}
