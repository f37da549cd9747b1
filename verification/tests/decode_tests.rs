use session_log::json::{parse_json, Json};
use session_log::events::{decode_event, DecodeError, Event, UserMessage};

fn parse(line: &str) -> Json {
    parse_json(line).expect("line should parse")
}

fn decode(line: &str) -> Result<Event, DecodeError> {
    decode_event(&parse(line))
}

const USER_LINE: &str = r#"{"type":"user","uuid":"u1","parentUuid":null,"sessionId":"s1","timestamp":"2024-01-01T00:00:00Z","message":{"role":"user","content":"Hello"}}"#;
const ASSISTANT_LINE: &str = r#"{"type":"assistant","uuid":"u2","sessionId":"s1","timestamp":"2024-01-02T00:00:00Z","message":{"role":"assistant","model":"m0","content":[{"type":"text","text":"Hi"},{"type":"thinking","thinking":"hmm"}],"stopReason":"end_turn","usage":{"inputTokens":5,"outputTokens":7}},"requestId":"r1"}"#;

#[test]
fn parses_scalars_and_nesting() {
    assert_eq!(parse("null"), Json::Null);
    assert_eq!(parse("true"), Json::Bool(true));
    assert_eq!(parse(" -1.5e3 "), Json::Num("-1.5e3".to_string()));
    assert_eq!(
        parse(r#"{"a":[1,"x"]}"#),
        Json::Obj(vec![(
            "a".to_string(),
            Json::Arr(vec![Json::Num("1".to_string()), Json::Str("x".to_string())]),
        )])
    );
}

#[test]
fn parses_unicode_escapes() {
    assert_eq!(parse(r#""Ab""#), Json::Str("Ab".to_string()));
    // a surrogate pair
    assert_eq!(parse(r#""😀""#), Json::Str("\u{1F600}".to_string()));
    // a lone surrogate is rejected
    assert_eq!(parse_json(r#""\ud83d""#), None);
}

#[test]
fn rejects_trailing_garbage_and_unclosed_strings() {
    assert_eq!(parse_json(r#"{"a":1} extra"#), None);
    assert_eq!(parse_json(r#""unclosed"#), None);
    assert_eq!(parse_json(r#"{"a":1,}"#), None);
}

#[test]
fn decodes_a_user_line() {
    let ev = decode(USER_LINE).expect("should decode");
    match &ev {
        Event::User(u) => {
            assert_eq!(u.common.uuid, "u1");
            assert_eq!(u.common.parent_uuid, None);
            assert_eq!(u.common.session_id, "s1");
            assert_eq!(u.common.timestamp.raw, "2024-01-01T00:00:00Z");
            assert_eq!(u.common.timestamp.millis, 1_704_067_200_000);
            assert_eq!(u.message.role, "user");
            assert_eq!(u.message.content, Json::Str("Hello".to_string()));
            assert_eq!(u.tool_use_result, None);
        }
        other => panic!("wrong variant: {other:?}"),
    }
    assert_eq!(ev.session_id().map(|s| s.as_str()), Some("s1"));
    assert_eq!(
        ev.timestamp().map(|t| t.raw.as_str()),
        Some("2024-01-01T00:00:00Z")
    );
}

#[test]
fn decodes_an_assistant_line_with_usage() {
    let ev = decode(ASSISTANT_LINE).expect("should decode");
    match &ev {
        Event::Assistant(a) => {
            assert_eq!(a.message.model.as_deref(), Some("m0"));
            assert_eq!(a.message.content.len(), 2);
            assert_eq!(a.message.stop_reason.as_deref(), Some("end_turn"));
            let usage = a.message.usage.as_ref().expect("usage");
            assert_eq!(usage.input_tokens, Some(5));
            assert_eq!(usage.output_tokens, Some(7));
            assert_eq!(usage.cache_creation_input_tokens, None);
            assert_eq!(a.request_id.as_deref(), Some("r1"));
        }
        other => panic!("wrong variant: {other:?}"),
    }
}

#[test]
fn round_trips_core_identity_fields() {
    // the decoded event reports exactly the strings stored in the line
    let line = USER_LINE;
    let ev = decode(line).expect("should decode");
    let sid = ev.session_id().unwrap().clone();
    let ts = ev.timestamp().unwrap().raw.clone();
    assert!(line.contains(&format!(r#""sessionId":"{sid}""#)));
    assert!(line.contains(&format!(r#""timestamp":"{ts}""#)));
}

#[test]
fn missing_type_field() {
    assert_eq!(decode(r#"{"uuid":"u1"}"#), Err(DecodeError::MissingType));
    assert_eq!(decode(r#"{"type":7}"#), Err(DecodeError::MissingType));
}

#[test]
fn unknown_type_tag() {
    assert_eq!(decode(r#"{"type":"bogus"}"#), Err(DecodeError::UnknownType));
}

#[test]
fn bad_shape_for_known_tag() {
    // no uuid, sessionId, timestamp or message
    assert_eq!(decode(r#"{"type":"user"}"#), Err(DecodeError::BadShape));
    // timestamp text that is not a timestamp
    assert_eq!(
        decode(
            r#"{"type":"user","uuid":"u1","sessionId":"s1","timestamp":"yesterday","message":{"role":"user","content":"x"}}"#
        ),
        Err(DecodeError::BadShape)
    );
}

#[test]
fn snapshot_has_no_timestamp_or_session() {
    let ev = decode(r#"{"type":"file-history-snapshot","messageId":"m1","snapshot":{"a":1}}"#)
        .expect("should decode");
    assert!(matches!(ev, Event::FileHistorySnapshot(_)));
    assert!(ev.timestamp().is_none());
    assert!(ev.session_id().is_none());
}

#[test]
fn queue_operation_with_optional_timestamp() {
    let ev = decode(r#"{"type":"queue-operation","operation":"enqueue","sessionId":"s9"}"#)
        .expect("should decode");
    match &ev {
        Event::QueueOperation(q) => {
            assert_eq!(q.operation, "enqueue");
            assert_eq!(q.timestamp, None);
        }
        other => panic!("wrong variant: {other:?}"),
    }
    assert_eq!(ev.session_id().map(|s| s.as_str()), Some("s9"));
    assert!(ev.timestamp().is_none());
}

#[test]
fn user_message_text_and_tool_results() {
    let text_msg = UserMessage {
        role: "user".to_string(),
        content: Json::Str("hi".to_string()),
    };
    assert_eq!(text_msg.text().map(|s| s.as_str()), Some("hi"));
    assert!(text_msg.tool_results().is_none());

    let blocks_msg = UserMessage {
        role: "user".to_string(),
        content: parse(
            r#"[{"type":"tool_result","toolUseId":"t1","content":"out","isError":false}]"#,
        ),
    };
    assert!(blocks_msg.text().is_none());
    let results = blocks_msg.tool_results().expect("blocks");
    assert_eq!(results.len(), 1);
    assert_eq!(results[0].tool_use_id, "t1");
    assert_eq!(results[0].block_type, "tool_result");
    assert_eq!(results[0].content, Json::Str("out".to_string()));
    assert_eq!(results[0].is_error, Some(false));

    // one malformed block spoils the whole list
    let bad_msg = UserMessage {
        role: "user".to_string(),
        content: parse(r#"[{"type":"tool_result"}]"#),
    };
    assert!(bad_msg.tool_results().is_none());
}

#[test]
fn number_fields_must_be_plain_integers() {
    // a fractional duration is the wrong shape for a u64 field
    assert_eq!(
        decode(
            r#"{"type":"system","uuid":"u1","sessionId":"s1","timestamp":"2024-01-01T00:00:00Z","durationMs":1.5}"#
        ),
        Err(DecodeError::BadShape)
    );
    let ev = decode(
        r#"{"type":"system","uuid":"u1","sessionId":"s1","timestamp":"2024-01-01T00:00:00Z","durationMs":12}"#,
    )
    .expect("should decode");
    match ev {
        Event::System(s) => assert_eq!(s.duration_ms, Some(12)),
        other => panic!("wrong variant: {other:?}"),
    }
}
