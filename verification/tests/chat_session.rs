use code_ai_assistant::chat_session::{
    append_message_to_session, append_messages, build_session, first_message_preview,
    load_all_sessions, preview, rename_session, save_session, update_session_name, ChatMessage,
    ChatSession, PREVIEW_CHARS,
};
use code_ai_assistant::textmap::TextMap;

fn message(id: &str, content: &str, workspace: Option<&str>) -> ChatMessage {
    ChatMessage {
        id: id.to_string(),
        role: "user".to_string(),
        content: content.to_string(),
        timestamp: "2025-01-01T00:00:00+00:00".to_string(),
        files: None,
        model: None,
        session_id: None,
        workspace_id: workspace.map(|w| w.to_string()),
    }
}

fn session(id: &str, workspace: Option<&str>, updated_at: &str) -> ChatSession {
    build_session(
        id,
        None,
        workspace.map(|w| w.to_string()),
        Vec::new(),
        None,
        None,
        updated_at.to_string(),
    )
}

fn ids(sessions: &[ChatSession]) -> Vec<&str> {
    sessions.iter().map(|s| s.id.as_str()).collect()
}

#[test]
fn preview_shows_a_hundred_characters() {
    assert_eq!(PREVIEW_CHARS, 100);
    assert_eq!(preview(""), "");
    assert_eq!(preview("short"), "short");
    let exactly = "x".repeat(100);
    assert_eq!(preview(&exactly), exactly);
    let longer = "x".repeat(101);
    assert_eq!(preview(&longer), format!("{}...", "x".repeat(100)));
    let wide = "日".repeat(150);
    assert_eq!(preview(&wide), format!("{}...", "日".repeat(100)));
    assert_eq!(first_message_preview(&Vec::new()), "");
    assert_eq!(
        first_message_preview(&vec![message("1", "first", None), message("2", "second", None)]),
        "first"
    );
}

#[test]
fn new_session_is_created_at_the_time_of_saving() {
    let messages = vec![message("1", "hello", Some("w1")), message("2", "again", Some("w1"))];
    let mut task_ids = TextMap::new();
    task_ids.insert("gemini-cli".to_string(), "t-1".to_string());
    let s = build_session(
        "s-1",
        Some("First".to_string()),
        Some("w1".to_string()),
        messages.clone(),
        Some(task_ids),
        None,
        "2025-02-02T10:00:00+01:00".to_string(),
    );
    assert_eq!(s.id, "s-1");
    assert_eq!(s.name, Some("First".to_string()));
    assert_eq!(s.session_id, Some("s-1".to_string()));
    assert_eq!(s.workspace_id, Some("w1".to_string()));
    assert_eq!(s.messages, messages);
    assert_eq!(s.created_at, "2025-02-02T10:00:00+01:00");
    assert_eq!(s.updated_at, "2025-02-02T10:00:00+01:00");
    assert_eq!(s.message_count, 2);
    assert_eq!(s.first_message_preview, "hello");
    assert_eq!(s.code_cli_task_ids.get("gemini-cli"), Some(&"t-1".to_string()));
    assert_eq!(s.code_cli_task_ids.len(), 1);
}

#[test]
fn saved_session_keeps_creation_time_and_agent_session_of_the_stored_one() {
    let mut stored = session("s-1", Some("w1"), "2025-01-01T00:00:00+00:00");
    stored.session_id = Some("agent-7".to_string());
    let s = build_session(
        "s-1",
        None,
        None,
        vec![message("1", "hi", None)],
        None,
        Some(&stored),
        "2025-03-03T00:00:00+00:00".to_string(),
    );
    assert_eq!(s.created_at, "2025-01-01T00:00:00+00:00");
    assert_eq!(s.updated_at, "2025-03-03T00:00:00+00:00");
    assert_eq!(s.session_id, Some("agent-7".to_string()));
    assert_eq!(s.workspace_id, None);
    assert_eq!(s.code_cli_task_ids.len(), 0);

    stored.session_id = None;
    let s = build_session("s-1", None, None, Vec::new(), None, Some(&stored), "t".to_string());
    assert_eq!(s.session_id, Some("s-1".to_string()));
    assert_eq!(s.message_count, 0);
    assert_eq!(s.first_message_preview, "");
}

#[test]
fn session_without_id_cannot_be_saved() {
    let result = save_session(None, None, None, Vec::new(), None, None);
    assert_eq!(result.err(), Some("Session ID is required".to_string()));
}

#[test]
fn saving_stamps_the_present_time() {
    let s = save_session(
        Some("s-2".to_string()),
        Some("n".to_string()),
        None,
        vec![message("1", "hello", None)],
        None,
        None,
    )
    .unwrap();
    assert_eq!(s.id, "s-2");
    assert_eq!(s.created_at, s.updated_at);
    assert!(s.updated_at.len() >= 20, "{}", s.updated_at);
    assert_eq!(&s.updated_at[4..5], "-");
    assert_eq!(&s.updated_at[10..11], "T");
    assert_eq!(s.message_count, 1);
}

#[test]
fn messages_are_appended_behind_the_stored_ones() {
    let mut stored = build_session(
        "s-1",
        Some("Named".to_string()),
        Some("w1".to_string()),
        vec![message("1", "first", Some("w1"))],
        None,
        None,
        "2025-01-01T00:00:00+00:00".to_string(),
    );
    stored.code_cli_task_ids.insert("codex-cli".to_string(), "t-0".to_string());
    let s = append_messages(
        Some(stored),
        "s-1",
        vec![message("2", "second", Some("w9")), message("3", "third", None)],
        Some("gemini-cli".to_string()),
        Some("t-1".to_string()),
        "2025-01-05T00:00:00+00:00".to_string(),
    );
    assert_eq!(s.id, "s-1");
    assert_eq!(s.name, Some("Named".to_string()));
    assert_eq!(s.workspace_id, Some("w1".to_string()));
    assert_eq!(s.session_id, Some("s-1".to_string()));
    assert_eq!(s.messages.iter().map(|m| m.id.as_str()).collect::<Vec<_>>(), vec!["1", "2", "3"]);
    assert_eq!(s.message_count, 3);
    assert_eq!(s.first_message_preview, "first");
    assert_eq!(s.created_at, "2025-01-01T00:00:00+00:00");
    assert_eq!(s.updated_at, "2025-01-05T00:00:00+00:00");
    assert_eq!(s.code_cli_task_ids.get("codex-cli"), Some(&"t-0".to_string()));
    assert_eq!(s.code_cli_task_ids.get("gemini-cli"), Some(&"t-1".to_string()));
}

#[test]
fn appending_to_nothing_starts_a_session() {
    let s = append_messages(
        None,
        "s-9",
        vec![message("1", "hello", Some("w3")), message("2", "x", Some("w4"))],
        Some("codex-cli".to_string()),
        None,
        "now".to_string(),
    );
    assert_eq!(s.id, "s-9");
    assert_eq!(s.name, None);
    assert_eq!(s.session_id, Some("s-9".to_string()));
    assert_eq!(s.workspace_id, Some("w3".to_string()));
    assert_eq!(s.message_count, 2);
    assert_eq!(s.first_message_preview, "hello");
    assert_eq!(s.created_at, "now");
    assert_eq!(s.updated_at, "now");
    assert_eq!(s.code_cli_task_ids.len(), 0);

    let s = append_messages(None, "s-9", Vec::new(), None, Some("t".to_string()), "now".to_string());
    assert_eq!(s.workspace_id, None);
    assert_eq!(s.message_count, 0);
    assert_eq!(s.first_message_preview, "");
    assert_eq!(s.code_cli_task_ids.len(), 0);
}

#[test]
fn appending_replaces_the_task_id_of_a_tool() {
    let mut stored = session("s-1", None, "t0");
    stored.code_cli_task_ids.insert("codex-cli".to_string(), "old".to_string());
    let s = append_message_to_session(
        Some(stored),
        "s-1",
        vec![message("1", "m", None)],
        Some("codex-cli".to_string()),
        Some("new".to_string()),
    );
    assert_eq!(s.code_cli_task_ids.get("codex-cli"), Some(&"new".to_string()));
    assert_eq!(s.code_cli_task_ids.len(), 1);
    assert_eq!(s.created_at, "t0");
    assert_ne!(s.updated_at, "t0");
    assert_eq!(s.message_count, 1);
}

#[test]
fn renaming_changes_the_name_and_the_time_of_update_only() {
    let stored = build_session(
        "s-1",
        Some("Old".to_string()),
        Some("w".to_string()),
        vec![message("1", "hello", None)],
        None,
        None,
        "t0".to_string(),
    );
    let s = rename_session(stored, "New".to_string(), "t1".to_string());
    assert_eq!(s.name, Some("New".to_string()));
    assert_eq!(s.updated_at, "t1");
    assert_eq!(s.created_at, "t0");
    assert_eq!(s.id, "s-1");
    assert_eq!(s.workspace_id, Some("w".to_string()));
    assert_eq!(s.message_count, 1);
    assert_eq!(s.first_message_preview, "hello");
    let s = update_session_name(s, "Newer".to_string());
    assert_eq!(s.name, Some("Newer".to_string()));
    assert_eq!(s.created_at, "t0");
    assert_ne!(s.updated_at, "t1");
}

#[test]
fn listing_shows_the_sessions_of_a_workspace_newest_first() {
    let all = vec![
        session("a", Some("w1"), "2025-01-02T00:00:00+00:00"),
        session("b", Some("w2"), "2025-01-09T00:00:00+00:00"),
        session("c", Some("w1"), "2025-01-05T00:00:00+00:00"),
        session("d", None, "2025-01-08T00:00:00+00:00"),
        session("e", Some("w1"), "2025-01-01T00:00:00+00:00"),
        session("f", Some("w1"), "2025-01-05T00:00:00+00:00"),
    ];
    assert_eq!(ids(&load_all_sessions(all, "w1", None)), vec!["c", "f", "a", "e"]);
}

#[test]
fn listing_is_cut_to_its_limit() {
    let make = || {
        vec![
            session("a", Some("w1"), "2025-01-02"),
            session("c", Some("w1"), "2025-01-05"),
            session("e", Some("w1"), "2025-01-01"),
        ]
    };
    assert_eq!(ids(&load_all_sessions(make(), "w1", Some(2))), vec!["c", "a"]);
    assert_eq!(ids(&load_all_sessions(make(), "w1", Some(3))), vec!["c", "a", "e"]);
    assert_eq!(ids(&load_all_sessions(make(), "w1", Some(10))), vec!["c", "a", "e"]);
    assert!(load_all_sessions(make(), "w1", Some(0)).is_empty());
    assert!(load_all_sessions(make(), "w2", None).is_empty());
    assert!(load_all_sessions(make(), "", None).is_empty());
    assert!(load_all_sessions(Vec::new(), "w1", Some(5)).is_empty());
}
