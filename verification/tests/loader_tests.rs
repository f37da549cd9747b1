use session_log::loader::{
    discover_sessions, load_session, load_session_lines, ProjectListing, SessionFile,
};
use session_log::events::Event;

fn lines(v: &[&str]) -> Vec<String> {
    v.iter().map(|s| s.to_string()).collect()
}

fn file(name: &str, content: &[&str]) -> SessionFile {
    SessionFile {
        name: name.to_string(),
        path: format!("/logs/{name}"),
        lines: lines(content),
    }
}

fn ts_line(ts: &str) -> String {
    format!(r#"{{"type":"user","timestamp":"{ts}","message":{{"content":"x"}}}}"#)
}

const T1: &str = "2024-01-01T00:00:00Z";
const T2: &str = "2024-01-02T00:00:00Z";
const T3: &str = "2024-01-03T00:00:00Z";

#[test]
fn empty_root_yields_empty_inventory() {
    let projects: Vec<ProjectListing> = Vec::new();
    let sessions = discover_sessions(&projects);
    assert!(sessions.is_empty());
}

#[test]
fn inventory_sorted_by_updated_time_descending() {
    let projects = vec![ProjectListing {
        name: "proj".to_string(),
        files: vec![
            file("a.jsonl", &[&ts_line(T1)]),
            file("b.jsonl", &[&ts_line(T3)]),
            file("c.jsonl", &[&ts_line(T2)]),
        ],
    }];
    let sessions = discover_sessions(&projects);
    assert_eq!(sessions.len(), 3);
    let ids: Vec<&str> = sessions.iter().map(|s| s.id.as_str()).collect();
    assert_eq!(ids, vec!["b", "c", "a"]);
}

#[test]
fn inventory_merges_projects_and_sorts_across_them() {
    let projects = vec![
        ProjectListing {
            name: "p1".to_string(),
            files: vec![file("old.jsonl", &[&ts_line(T1)])],
        },
        ProjectListing {
            name: "p2".to_string(),
            files: vec![file("new.jsonl", &[&ts_line(T3)])],
        },
        ProjectListing {
            name: "p3".to_string(),
            files: vec![file("mid.jsonl", &[&ts_line(T2)])],
        },
    ];
    let sessions = discover_sessions(&projects);
    let ids: Vec<(&str, &str)> = sessions
        .iter()
        .map(|s| (s.id.as_str(), s.project.as_str()))
        .collect();
    assert_eq!(ids, vec![("new", "p2"), ("mid", "p3"), ("old", "p1")]);
}

#[test]
fn sessions_without_updated_time_sort_last() {
    let projects = vec![ProjectListing {
        name: "proj".to_string(),
        files: vec![
            file("untimed.jsonl", &[r#"{"type":"summary"}"#]),
            file("timed.jsonl", &[&ts_line(T1)]),
        ],
    }];
    let sessions = discover_sessions(&projects);
    assert_eq!(sessions.len(), 2);
    assert_eq!(sessions[0].id, "timed");
    assert_eq!(sessions[1].id, "untimed");
    assert_eq!(sessions[1].updated_at, None);
}

#[test]
fn only_jsonl_files_are_sessions() {
    let projects = vec![ProjectListing {
        name: "proj".to_string(),
        files: vec![
            file("notes.txt", &["hello"]),
            file("sess.jsonl", &[&ts_line(T1)]),
            file(".jsonl", &["{}"]),
        ],
    }];
    let sessions = discover_sessions(&projects);
    assert_eq!(sessions.len(), 1);
    assert_eq!(sessions[0].id, "sess");
    assert_eq!(sessions[0].project, "proj");
    assert_eq!(sessions[0].path, "/logs/sess.jsonl");
}

#[test]
fn inventory_carries_scan_metadata() {
    let content = format!(
        r#"{{"type":"user","slug":"greet","cwd":"/home/p","timestamp":"{T1}","message":{{"role":"user","content":"hi"}}}}"#
    );
    let projects = vec![ProjectListing {
        name: "proj".to_string(),
        files: vec![file("s.jsonl", &[&content, ""])],
    }];
    let sessions = discover_sessions(&projects);
    assert_eq!(sessions.len(), 1);
    let s = &sessions[0];
    assert_eq!(s.slug.as_deref(), Some("greet"));
    assert_eq!(s.project_path.as_deref(), Some("/home/p"));
    assert_eq!(s.message_count, 1);
    assert_eq!(s.first_message.as_deref(), Some("hi"));
    assert_eq!(s.created_at, Some(1_704_067_200_000));
    assert_eq!(s.updated_at, Some(1_704_067_200_000));
}

#[test]
fn listing_hides_sessions_without_a_first_message() {
    let projects = vec![ProjectListing {
        name: "alpha-project".to_string(),
        files: vec![
            file("empty.jsonl", &[r#"{"type":"file-history-snapshot"}"#]),
            file(
                "talked.jsonl",
                &[r#"{"type":"user","message":{"role":"user","content":"hi"}}"#],
            ),
        ],
    }];
    let sessions = discover_sessions(&projects);
    let listed: Vec<&str> = sessions
        .iter()
        .filter(|s| session_log::loader::session_listed(s, None))
        .map(|s| s.id.as_str())
        .collect();
    assert_eq!(listed, vec!["talked"]);
    let by_project: Vec<&str> = sessions
        .iter()
        .filter(|s| session_log::loader::session_listed(s, Some("alpha")))
        .map(|s| s.id.as_str())
        .collect();
    assert_eq!(by_project, vec!["talked"]);
    let none: Vec<&str> = sessions
        .iter()
        .filter(|s| session_log::loader::session_listed(s, Some("beta")))
        .map(|s| s.id.as_str())
        .collect();
    assert!(none.is_empty());
}

#[test]
fn find_session_by_id() {
    let projects = vec![ProjectListing {
        name: "proj".to_string(),
        files: vec![
            file("a.jsonl", &[&ts_line(T1)]),
            file("b.jsonl", &[&ts_line(T2)]),
        ],
    }];
    let sessions = discover_sessions(&projects);
    let found = session_log::loader::find_session(&sessions, "a").expect("a exists");
    assert_eq!(found.id, "a");
    assert!(session_log::loader::find_session(&sessions, "zzz").is_none());
}

#[test]
fn load_session_skips_malformed_lines_and_keeps_order() {
    let user = r#"{"type":"user","uuid":"u1","sessionId":"s1","timestamp":"2024-01-01T00:00:00Z","message":{"role":"user","content":"q"}}"#;
    let assistant = r#"{"type":"assistant","uuid":"u2","sessionId":"s1","timestamp":"2024-01-01T00:01:00Z","message":{"role":"assistant","content":[]}}"#;
    let ls = lines(&[user, "this is not json", assistant]);
    let events = load_session(&ls);
    assert_eq!(events.len(), 2);
    assert!(matches!(events[0], Event::User(_)));
    assert!(matches!(events[1], Event::Assistant(_)));
}

#[test]
fn load_session_skips_blank_and_partial_lines() {
    let user = r#"{"type":"user","uuid":"u1","sessionId":"s1","timestamp":"2024-01-01T00:00:00Z","message":{"role":"user","content":"q"}}"#;
    // a partial trailing line must be skipped, not crash the decode
    let ls = lines(&["", user, r#"{"type":"us"#]);
    let events = load_session(&ls);
    assert_eq!(events.len(), 1);
}

#[test]
fn page_of_a_five_line_file() {
    let ls = lines(&["l1", "l2", "l3", "l4", "l5"]);
    let page = load_session_lines(&ls, 2, 2);
    assert_eq!(page.total_lines, 5);
    assert_eq!(page.lines.len(), 2);
    assert_eq!(page.lines[0].line_number, 3);
    assert_eq!(page.lines[0].content, "l3");
    assert_eq!(page.lines[1].line_number, 4);
    assert_eq!(page.lines[1].content, "l4");
}

#[test]
fn page_past_the_end_is_empty() {
    let ls = lines(&["l1", "l2", "l3", "l4", "l5"]);
    let page = load_session_lines(&ls, 10, 2);
    assert_eq!(page.total_lines, 5);
    assert!(page.lines.is_empty());
}

#[test]
fn paging_counts_the_same_lines_as_message_count() {
    // blank lines are invisible to both the count and the pages
    let ls = lines(&["l1", "", "l2", "", "l3"]);
    let page = load_session_lines(&ls, 0, 10);
    assert_eq!(page.total_lines, 3);
    assert_eq!(page.lines.len(), 3);
    assert_eq!(page.lines[1].content, "l2");
    let meta = session_log::scan::scan_session_metadata(&ls);
    assert_eq!(meta.line_count, 3);
}

#[test]
fn page_clipped_at_the_end() {
    let ls = lines(&["l1", "l2", "l3"]);
    let page = load_session_lines(&ls, 2, 5);
    assert_eq!(page.total_lines, 3);
    assert_eq!(page.lines.len(), 1);
    assert_eq!(page.lines[0].line_number, 3);
    assert_eq!(page.lines[0].content, "l3");
}
