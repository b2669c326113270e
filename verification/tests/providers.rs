use ccgo::codex::CodexLogProvider;
use ccgo::gemini::{parse_chat_json, GeminiLogProvider};
use ccgo::log::{find_latest_reply, pick_latest_by_ext, pick_latest_session_file, FileMeta,
    LogMessage};
use ccgo::opencode::{parse_session_json, OpenCodeLogProvider};

fn msg(role: &str, content: &str, ts: i64) -> LogMessage {
    LogMessage { role: String::from(role), content: String::from(content), timestamp_ms: ts }
}

#[test]
fn test_find_latest_reply_picks_last_assistant() {
    let entries = vec![
        msg("user", "question", 1),
        msg("assistant", "first answer", 2),
        msg("assistant", "second answer", 3),
        msg("user", "follow-up", 4),
    ];
    let e = find_latest_reply(&entries, 0, false, None).unwrap();
    assert_eq!(e.content, "second answer");
    assert_eq!(e.offset, 3);
    assert_eq!(e.timestamp_ms, 3);
}

#[test]
fn test_find_latest_reply_none_past_cursor() {
    // No qualifying assistant message at or past the cursor: None.
    let entries = vec![
        msg("user", "question", 1),
        msg("assistant", "answer", 2),
        msg("user", "follow-up", 3),
    ];
    assert!(find_latest_reply(&entries, 2, false, None).is_none());
    assert!(find_latest_reply(&entries, 100, false, None).is_none());
    assert!(find_latest_reply(&Vec::new(), 0, false, None).is_none());
}

#[test]
fn test_blank_content_does_not_qualify() {
    let entries = vec![msg("assistant", "   ", 1), msg("assistant", "", 2)];
    assert!(find_latest_reply(&entries, 0, false, None).is_none());
}

#[test]
fn test_role_synonyms() {
    let entries = vec![msg("model", "from the model", 5)];
    assert!(find_latest_reply(&entries, 0, false, None).is_none());
    let e = find_latest_reply(&entries, 0, true, None).unwrap();
    assert_eq!(e.content, "from the model");
}

#[test]
fn test_parse_session_json_messages() {
    let content = r#"{"messages":[
        {"role":"user","content":"q","timestamp":"1970-01-01T00:00:01Z"},
        {"role":"assistant","content":"a","timestamp":"1970-01-01T00:00:02Z"}
    ]}"#;
    let entries = parse_session_json(content, 99);
    assert_eq!(entries.len(), 2);
    assert_eq!(entries[1].role, "assistant");
    assert_eq!(entries[1].content, "a");
    assert_eq!(entries[1].timestamp_ms, 2000);
}

#[test]
fn test_parse_session_json_turns_variant() {
    let content = r#"{"turns":[
        {"role":"assistant","content":"turn reply","created_at":"1970-01-01T00:00:03Z"}
    ]}"#;
    let entries = parse_session_json(content, 99);
    assert_eq!(entries.len(), 1);
    assert_eq!(entries[0].content, "turn reply");
    assert_eq!(entries[0].timestamp_ms, 3000);
}

#[test]
fn test_parse_session_json_bad_input() {
    assert!(parse_session_json("not json", 0).is_empty());
    assert!(parse_session_json("{}", 0).is_empty());
    // A missing timestamp falls back to the caller's clock value.
    let entries = parse_session_json(r#"{"messages":[{"role":"user","content":"x"}]}"#, 42);
    assert_eq!(entries[0].timestamp_ms, 42);
}

#[test]
fn test_parse_chat_json_type_key() {
    let content = r#"{"messages":[
        {"type":"user","content":"q","timestamp":"1970-01-01T00:00:01Z"},
        {"type":"gemini","content":"g","timestamp":"bad timestamp"}
    ]}"#;
    let entries = parse_chat_json(content);
    assert_eq!(entries.len(), 2);
    assert_eq!(entries[1].role, "gemini");
    // An unparsable timestamp falls back to the epoch placeholder.
    assert_eq!(entries[1].timestamp_ms, 0);
}

#[test]
fn test_opencode_reply_and_cursor() {
    let mut p = OpenCodeLogProvider { log_path: String::from("/tmp/store"), current_offset: 0 };
    let entries = vec![msg("user", "q", 1), msg("assistant", "a", 2)];
    let e = p.get_latest_reply_from(&entries, 0, Some(7)).unwrap();
    assert_eq!(e.content, "a");
    assert_eq!(e.offset, 2);
    assert_eq!(e.inode, Some(7));
    assert_eq!(p.get_current_offset(), 2);
    // Polling again from the advanced cursor finds nothing new.
    assert!(p.get_latest_reply_from(&entries, p.get_current_offset(), None).is_none());
}

#[test]
fn test_opencode_history() {
    let p = OpenCodeLogProvider { log_path: String::from("/tmp/store"), current_offset: 0 };
    let entries = vec![msg("user", "one", 1), msg("assistant", "two", 2), msg("user", "three", 3)];
    let h = p.get_history_from(&entries, 2);
    assert_eq!(h.len(), 2);
    assert_eq!(h[0].content, "two");
    assert_eq!(h[1].content, "three");
}

#[test]
fn test_gemini_history_normalizes_roles() {
    let p = GeminiLogProvider {
        log_path: String::from("/tmp/gem"),
        current_offset: 0,
        locked: None,
    };
    let entries = vec![msg("model", "m", 1), msg("gemini", "g", 2), msg("user", "u", 3)];
    let h = p.get_history_from(&entries, 10);
    assert_eq!(h[0].role, "assistant");
    assert_eq!(h[1].role, "assistant");
    assert_eq!(h[2].role, "user");
}

#[test]
fn test_session_lock_rollover() {
    // S4: the locked file stays silent, a newer session file appears with an
    // assistant record one second past the baseline; the next poll returns
    // that record.
    let mut p = GeminiLogProvider {
        log_path: String::from("/tmp/gem"),
        current_offset: 0,
        locked: None,
    };
    let t: i64 = 1_700_000_000_000;
    let locked_entries = vec![msg("user", "prompt", t - 1000), msg("gemini", "old reply", t)];
    let lock = p.lock_with_entries(String::from("session-1.json"), &locked_entries);
    assert_eq!(lock.file_path, "session-1.json");
    assert_eq!(lock.baseline_offset, 2);
    // The locked file gained nothing past the baseline.
    assert!(p.reply_in_current(&locked_entries, lock.baseline_offset, None).is_none());
    // session-2.json holds one record at T+1s.
    let newer = vec![msg("gemini", "rolled over", t + 1000)];
    let e = p.reply_in_newer(&newer, lock.baseline_offset, None).unwrap();
    assert_eq!(e.content, "rolled over");
    assert_eq!(e.timestamp_ms, t + 1000);
    p.unlock_session();
    assert!(p.locked_path().is_none());
}

#[test]
fn test_rollover_needs_real_baseline() {
    // With only placeholder timestamps in the locked file the timestamp
    // fallback is disabled and an offset miss stays a miss.
    let mut p = GeminiLogProvider {
        log_path: String::from("/tmp/gem"),
        current_offset: 0,
        locked: None,
    };
    let locked_entries = vec![msg("user", "prompt", 0)];
    let lock = p.lock_with_entries(String::from("session-1.json"), &locked_entries);
    let newer = vec![msg("gemini", "reply", 500)];
    assert!(p.reply_in_newer(&newer, lock.baseline_offset, None).is_none());
}

#[test]
fn test_codex_jsonl_scan() {
    let line1 = r#"{"role":"user","content":"question","timestamp":"1970-01-01T00:00:01Z"}"#;
    let line2 = r#"{"role":"assistant","content":"answer","timestamp":"1970-01-01T00:00:02Z"}"#;
    let content = format!("{}\n{}\n", line1, line2);
    let bytes = content.clone().into_bytes();
    let mut p = CodexLogProvider { log_path: String::from("/tmp/codex"), current_offset: 0 };
    let e = p.get_latest_reply_from_bytes(&bytes, 0, 0, Some(9)).unwrap();
    assert_eq!(e.content, "answer");
    assert_eq!(e.timestamp_ms, 2000);
    // The offset points one past the assistant line so the next poll
    // resumes without re-reading.
    assert_eq!(e.offset, bytes.len() as u64);
    assert_eq!(p.get_current_offset(), bytes.len() as u64);
    // A window with no assistant record yields nothing.
    let bytes1 = format!("{}\n", line1).into_bytes();
    assert!(p.get_latest_reply_from_bytes(&bytes1, 100, 0, None).is_none());
}

#[test]
fn test_codex_parse_jsonl_skips_garbage() {
    let content = b"not json at all\n{\"role\":\"user\",\"content\":\"ok\"}\n".to_vec();
    let p = CodexLogProvider { log_path: String::from("/tmp/codex"), current_offset: 0 };
    let entries = p.parse_jsonl(&content, 5);
    assert_eq!(entries.len(), 1);
    assert_eq!(entries[0].content, "ok");
    assert_eq!(entries[0].timestamp_ms, 5);
}

#[test]
fn test_pick_latest_session_file() {
    let files = vec![
        FileMeta { name: String::from("session-1.json"), path: String::from("/a/session-1.json"), mtime_ms: 100 },
        FileMeta { name: String::from("notes.txt"), path: String::from("/a/notes.txt"), mtime_ms: 500 },
        FileMeta { name: String::from("session-2.json"), path: String::from("/a/session-2.json"), mtime_ms: 300 },
    ];
    assert_eq!(pick_latest_session_file(&files), Some(2));
    let none = vec![FileMeta { name: String::from("x.log"), path: String::from("/x.log"), mtime_ms: 10 }];
    assert_eq!(pick_latest_session_file(&none), None);
}

#[test]
fn test_pick_latest_by_ext() {
    let files = vec![
        FileMeta { name: String::from("a.jsonl"), path: String::from("/a.jsonl"), mtime_ms: 100 },
        FileMeta { name: String::from("b.jsonl"), path: String::from("/b.jsonl"), mtime_ms: 300 },
        FileMeta { name: String::from("c.json"), path: String::from("/c.json"), mtime_ms: 900 },
    ];
    assert_eq!(pick_latest_by_ext(&files, ".jsonl"), Some(1));
    assert_eq!(pick_latest_by_ext(&files, ".xml"), None);
}

#[test]
fn test_provider_default_paths() {
    // Roots are normalized; only the home expansion depends on the host.
    let p = OpenCodeLogProvider::default_log_path(false);
    assert!(p.ends_with(".local/share/opencode/storage"));
    let c = CodexLogProvider::default_log_path(false);
    assert!(c.ends_with(".codex/sessions"));
    let g = GeminiLogProvider::default_log_path(None, false);
    assert!(g.ends_with(".gemini/tmp"));
    let over = String::from("/custom/root");
    assert_eq!(GeminiLogProvider::default_log_path(Some(&over), false), "/custom/root");
}

#[test]
fn test_codex_offset_points_past_assistant_line() {
    // The returned offset is one past the last assistant line, not the end
    // of the window: a later user line is not re-read territory.
    let line1 = r#"{"role":"assistant","content":"first","timestamp":"1970-01-01T00:00:01Z"}"#;
    let line2 = r#"{"role":"user","content":"later","timestamp":"1970-01-01T00:00:02Z"}"#;
    let content = format!("{}\n{}\n", line1, line2);
    let bytes = content.into_bytes();
    let mut p = CodexLogProvider { log_path: String::from("/tmp/codex"), current_offset: 0 };
    let e = p.get_latest_reply_from_bytes(&bytes, 10, 0, None).unwrap();
    assert_eq!(e.content, "first");
    assert_eq!(e.offset, 10 + (line1.len() as u64) + 1);
    assert_eq!(p.get_current_offset(), e.offset);
}
