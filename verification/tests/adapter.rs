use ccgo::agent::{create_agent, Agent};
use ccgo::config::AgentConfig;

fn descriptor() -> AgentConfig {
    AgentConfig {
        command: String::from("fake-agent"),
        args: vec![String::from("--plain")],
        log_provider: String::from("opencode"),
        ready_pattern: String::from("> $"),
        error_patterns: vec![String::from("fatal:")],
        supports_cwd: true,
        sentinel_template: String::from("<req {id}> {message}"),
        sentinel_regex: String::from("<req ([a-z0-9]+)>"),
        done_template: String::from("<done {id}>"),
        done_regex: String::from("<done {id}>"),
    }
}

#[test]
fn test_inject_message_frames_prompt() {
    let a = create_agent("fake", &descriptor());
    let injected = a.inject_message_sentinel("hello", "a1");
    let expected = "<req a1> hello\n\nIMPORTANT:\n- Reply normally, in English.\n- End your reply with this exact final line (verbatim, on its own line):\n<done a1>";
    assert_eq!(injected, expected);
}

#[test]
fn test_is_reply_complete_on_marker() {
    let a = create_agent("fake", &descriptor());
    assert!(a.is_reply_complete("hi there\n<done a1>\n", "a1"));
    assert!(a.is_reply_complete("hi there\n<done a1>\n   \n", "a1"));
    assert!(!a.is_reply_complete("hi there\n", "a1"));
    assert!(!a.is_reply_complete("hi there\n<done a2>\n", "a1"));
    assert!(!a.is_reply_complete("", "a1"));
}

#[test]
fn test_strip_done_marker_returns_clean_reply() {
    let a = create_agent("fake", &descriptor());
    assert_eq!(a.strip_done_marker("hi there\n<done a1>\n", "a1"), "hi there");
    assert_eq!(a.strip_done_marker("line one\nline two\n\n<done a1>\n\n", "a1"), "line one\nline two");
    assert_eq!(a.strip_done_marker("no marker here\n", "a1"), "no marker here");
}

#[test]
fn test_done_marker_id_is_escaped() {
    // The id is escaped before it enters the done pattern: a dot in the id
    // must not match an arbitrary character.
    let a = create_agent("fake", &descriptor());
    assert!(a.is_reply_complete("ok\n<done a.b>\n", "a.b"));
    assert!(!a.is_reply_complete("ok\n<done aXb>\n", "a.b"));
}

#[test]
fn test_extract_sentinel_id() {
    let a = create_agent("fake", &descriptor());
    assert_eq!(a.extract_sentinel_id("noise <req a1> hello"), Some(String::from("a1")));
    assert_eq!(a.extract_sentinel_id("no sentinel"), None);
}

#[test]
fn test_extract_sentinel_id_invalid_regex() {
    let mut cfg = descriptor();
    cfg.sentinel_regex = String::from("(unclosed");
    let a = create_agent("fake", &cfg);
    assert_eq!(a.extract_sentinel_id("<req a1>"), None);
}

#[test]
fn test_startup_command_appends_cwd() {
    let a = create_agent("fake", &descriptor());
    let argv = a.get_startup_command("/work/dir", true);
    assert_eq!(argv, vec!["fake-agent", "--plain", "--cwd", "/work/dir"]);
    let argv = a.get_startup_command("/missing", false);
    assert_eq!(argv, vec!["fake-agent", "--plain"]);
}

#[test]
fn test_interrupt_and_restart_defaults() {
    let a = create_agent("fake", &descriptor());
    assert_eq!(a.get_interrupt_sequence(), vec![3u8]);
    assert!(a.should_auto_restart(1));
    assert!(a.should_auto_restart(-9));
    assert!(!a.should_auto_restart(0));
}

#[test]
fn test_adapter_accessors() {
    let a = create_agent("fake", &descriptor());
    assert_eq!(a.name(), "fake");
    assert_eq!(a.get_ready_pattern(), "> $");
    assert_eq!(a.get_error_patterns(), &vec![String::from("fatal:")]);
    assert_eq!(a.get_done_regex(), "<done {id}>");
}

#[test]
fn test_stripped_reply_round_trip() {
    // Appending the matched marker line to a stripped reply makes it
    // complete again; the stripped reply alone is not complete.
    let a = create_agent("fake", &descriptor());
    let tail = "hello\nworld\n\n<done a1>\n";
    assert!(a.is_reply_complete(tail, "a1"));
    let reply = a.strip_done_marker(tail, "a1");
    assert!(!a.is_reply_complete(&reply, "a1"));
    let rejoined = format!("{}\n<done a1>", reply);
    assert!(a.is_reply_complete(&rejoined, "a1"));
    assert_eq!(a.strip_done_marker(&rejoined, "a1"), reply);
}

#[test]
fn test_strip_with_invalid_pattern_is_identity() {
    let mut cfg = descriptor();
    cfg.done_regex = String::from("(never closed");
    let a = create_agent("fake", &cfg);
    assert_eq!(a.strip_done_marker("text stays\n", "a1"), "text stays\n");
    assert!(!a.is_reply_complete("text stays\n", "a1"));
}
