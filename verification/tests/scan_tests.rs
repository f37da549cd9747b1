use session_log::scan::{extract_json_string, extract_user_content_string, scan_session_metadata};

fn lines(v: &[&str]) -> Vec<String> {
    v.iter().map(|s| s.to_string()).collect()
}

const T1: &str = "2024-01-01T00:00:00Z";
const T2: &str = "2024-01-02T00:00:00Z";
const T1_MS: i64 = 1_704_067_200_000;
const T2_MS: i64 = 1_704_153_600_000;

#[test]
fn extracts_simple_string_field() {
    let line = r#"{"slug":"my-slug","n":1}"#;
    assert_eq!(extract_json_string(line, "slug"), Some("my-slug".to_string()));
}

#[test]
fn extract_missing_key_is_none() {
    let line = r#"{"slug":"my-slug"}"#;
    assert_eq!(extract_json_string(line, "cwd"), None);
}

#[test]
fn extract_stops_at_first_quote() {
    let line = r#"{"cwd":"/home/me/project","slug":"s"}"#;
    assert_eq!(extract_json_string(line, "cwd"), Some("/home/me/project".to_string()));
}

#[test]
fn user_content_unescapes_small_set() {
    let line = r#"{"type":"user","message":{"role":"user","content":"Hello\nworld\t!"}}"#;
    assert_eq!(extract_user_content_string(line), Some("Hello world !".to_string()));
}

#[test]
fn user_content_handles_escaped_quotes() {
    let line = r#"{"type":"user","message":{"role":"user","content":"say \"hi\" now"}}"#;
    assert_eq!(extract_user_content_string(line), Some("say \"hi\" now".to_string()));
}

#[test]
fn user_content_empty_is_none() {
    let line = r#"{"message":{"content":""}}"#;
    assert_eq!(extract_user_content_string(line), None);
}

#[test]
fn user_content_missing_is_none() {
    let line = r#"{"message":{"role":"user"}}"#;
    assert_eq!(extract_user_content_string(line), None);
}

#[test]
fn message_count_ignores_blank_lines_and_decode_failures() {
    // four non-empty lines, two of them malformed, plus interspersed blanks
    let ls = lines(&[
        "",
        r#"{"type":"user","timestamp":"2024-01-01T00:00:00Z"}"#,
        "not json at all",
        "",
        r#"{"broken"#,
        r#"{"type":"system"}"#,
        "",
    ]);
    let meta = scan_session_metadata(&ls);
    assert_eq!(meta.line_count, 4);
}

#[test]
fn scan_tracks_first_and_last_timestamp() {
    let ls = lines(&[
        &format!(r#"{{"type":"user","timestamp":"{T1}"}}"#),
        r#"{"type":"progress","timestamp":"not-a-time"}"#,
        &format!(r#"{{"type":"assistant","timestamp":"{T2}"}}"#),
    ]);
    let meta = scan_session_metadata(&ls);
    assert_eq!(meta.first_timestamp, Some(T1_MS));
    assert_eq!(meta.last_timestamp, Some(T2_MS));
}

#[test]
fn scan_takes_first_slug_and_cwd_only() {
    let ls = lines(&[
        r#"{"slug":"first","cwd":"/a"}"#,
        r#"{"slug":"second","cwd":"/b"}"#,
    ]);
    let meta = scan_session_metadata(&ls);
    assert_eq!(meta.slug, Some("first".to_string()));
    assert_eq!(meta.project_path, Some("/a".to_string()));
}

#[test]
fn first_message_skips_tool_result_user_lines() {
    // a tool-result user line comes first and must not give the preview
    let ls = lines(&[
        r#"{"type":"user","toolUseResult":{"ok":true},"message":{"content":"tool output"}}"#,
        r#"{"type":"user","message":{"role":"user","content":"real question"}}"#,
    ]);
    let meta = scan_session_metadata(&ls);
    assert_eq!(meta.first_message, Some("real question".to_string()));
}

#[test]
fn first_message_from_plain_user_line() {
    let ls = lines(&[r#"{"type":"user","message":{"role":"user","content":"hi there"}}"#]);
    let meta = scan_session_metadata(&ls);
    assert_eq!(meta.first_message, Some("hi there".to_string()));
}

#[test]
fn scan_of_empty_file() {
    let ls = lines(&[]);
    let meta = scan_session_metadata(&ls);
    assert_eq!(meta.line_count, 0);
    assert_eq!(meta.slug, None);
    assert_eq!(meta.first_timestamp, None);
    assert_eq!(meta.last_timestamp, None);
    assert_eq!(meta.first_message, None);
    assert_eq!(meta.project_path, None);
}
