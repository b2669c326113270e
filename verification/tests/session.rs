use ccgo::agent::create_agent;
use ccgo::config::{AgentConfig, Config};
use ccgo::manager::SessionManager;
use ccgo::session::{AgentSession, PollOutcome, ReplyCursor, SessionState, StartAction,
    StartupOutcome};

fn descriptor() -> AgentConfig {
    AgentConfig {
        command: String::from("fake-agent"),
        args: vec![],
        log_provider: String::from("opencode"),
        ready_pattern: String::from("ready>"),
        error_patterns: vec![String::from("boom")],
        supports_cwd: false,
        sentinel_template: String::from("<req {id}> {message}"),
        sentinel_regex: String::from("<req ([a-z0-9]+)>"),
        done_template: String::from("<done {id}>"),
        done_regex: String::from("<done {id}>"),
    }
}

fn fresh_session() -> AgentSession {
    AgentSession::new(String::from("fake"), create_agent("fake", &descriptor()), false, 300_000)
}

#[test]
fn test_happy_path_send() {
    // S1: submit "hello" under id "a1"; the child echoes the reply and the
    // done marker; send returns "hi there".
    let mut s = fresh_session();
    assert!(matches!(s.begin_start(), StartAction::Spawn));
    assert!(matches!(
        s.startup_poll("booting\nready> ", None, 100, 30_000),
        StartupOutcome::BecameReady
    ));
    assert!(s.enqueue(String::from("a1"), String::from("hello"), 600_000));
    let (id, inject) = s.dispatch(0, ReplyCursor::Pty(0)).unwrap();
    assert_eq!(id, "a1");
    assert!(inject.starts_with("<req a1> hello\n\nIMPORTANT:\n"));
    assert!(inject.ends_with("\n<done a1>"));
    match s.poll(200, "hi there\n<done a1>\n", None) {
        PollOutcome::Completed { id, reply } => {
            assert_eq!(id, "a1");
            assert_eq!(reply, "hi there");
        }
        _ => panic!("expected completion"),
    }
    assert!(matches!(s.state, SessionState::Ready));
}

#[test]
fn test_queueing_two_requests() {
    // S3: the second send waits while the first is busy; correlation by id
    // keeps the replies distinct even when both sentinels are echoed.
    let mut s = fresh_session();
    s.begin_start();
    s.startup_poll("ready> ", None, 0, 30_000);
    assert!(s.enqueue(String::from("r1"), String::from("one"), 600_000));
    assert!(s.enqueue(String::from("r2"), String::from("two"), 600_000));
    let (id1, _) = s.dispatch(0, ReplyCursor::Pty(0)).unwrap();
    assert_eq!(id1, "r1");
    // While busy, nothing else is dispatched.
    assert!(s.dispatch(0, ReplyCursor::Pty(0)).is_none());
    assert!(matches!(&s.state, SessionState::Busy(id) if id == "r1"));
    // A tail carrying only r2's marker does not complete r1.
    match s.poll(100, "<req r2> echoed early\n", None) {
        PollOutcome::StillBusy => {}
        _ => panic!("r1 must still be busy"),
    }
    match s.poll(200, "answer one\n<done r1>\n", None) {
        PollOutcome::Completed { id, reply } => {
            assert_eq!(id, "r1");
            assert_eq!(reply, "answer one");
        }
        _ => panic!("expected r1 completion"),
    }
    let (id2, _) = s.dispatch(300, ReplyCursor::Pty(0)).unwrap();
    assert_eq!(id2, "r2");
    match s.poll(400, "answer one\n<done r1>\nanswer two\n<done r2>\n", None) {
        PollOutcome::Completed { id, reply } => {
            assert_eq!(id, "r2");
            assert!(reply.ends_with("answer two"));
        }
        _ => panic!("expected r2 completion"),
    }
}

#[test]
fn test_duplicate_id_rejected() {
    let mut s = fresh_session();
    assert!(s.enqueue(String::from("x"), String::from("p"), 1000));
    assert!(!s.enqueue(String::from("x"), String::from("q"), 1000));
}

#[test]
fn test_stuck_detection() {
    // S6: no output for longer than max_stuck_duration fails the request
    // with Stuck and the session returns to Ready.
    let mut s = AgentSession::new(
        String::from("fake"),
        create_agent("fake", &descriptor()),
        false,
        1000,
    );
    s.begin_start();
    s.startup_poll("ready> ", None, 0, 30_000);
    s.enqueue(String::from("a1"), String::from("hello"), 600_000);
    s.dispatch(0, ReplyCursor::Pty(0)).unwrap();
    match s.poll(500, "", None) {
        PollOutcome::StillBusy => {}
        _ => panic!("not yet stuck"),
    }
    match s.poll(1001, "", None) {
        PollOutcome::StuckFailed { id } => assert_eq!(id, "a1"),
        _ => panic!("expected stuck failure"),
    }
    assert!(matches!(s.state, SessionState::Ready));
}

#[test]
fn test_deadline_timeout() {
    let mut s = fresh_session();
    s.begin_start();
    s.startup_poll("ready> ", None, 0, 30_000);
    s.enqueue(String::from("a1"), String::from("hello"), 1000);
    s.dispatch(0, ReplyCursor::Pty(0)).unwrap();
    match s.poll(1500, "", None) {
        PollOutcome::TimedOut { id } => assert_eq!(id, "a1"),
        _ => panic!("expected timeout"),
    }
}

#[test]
fn test_interrupt_clears_busy() {
    let mut s = fresh_session();
    s.begin_start();
    s.startup_poll("ready> ", None, 0, 30_000);
    s.enqueue(String::from("a1"), String::from("hello"), 600_000);
    s.dispatch(0, ReplyCursor::Pty(0)).unwrap();
    assert_eq!(s.interrupt(), Some(String::from("a1")));
    assert!(matches!(s.state, SessionState::Ready));
    assert_eq!(s.interrupt(), None);
}

#[test]
fn test_stop_fails_pending_requests() {
    let mut s = fresh_session();
    s.begin_start();
    s.startup_poll("ready> ", None, 0, 30_000);
    s.enqueue(String::from("a1"), String::from("one"), 600_000);
    s.enqueue(String::from("a2"), String::from("two"), 600_000);
    s.dispatch(0, ReplyCursor::Pty(0)).unwrap();
    let failed = s.stop();
    assert_eq!(failed, vec![String::from("a1"), String::from("a2")]);
    assert!(matches!(s.state, SessionState::Stopped));
}

#[test]
fn test_startup_error_pattern_fails() {
    let mut s = fresh_session();
    s.begin_start();
    match s.startup_poll("boom: cannot start\n", None, 0, 30_000) {
        StartupOutcome::StartFailed(_) => {}
        _ => panic!("expected failure"),
    }
    assert!(matches!(s.state, SessionState::Failed(_)));
}

#[test]
fn test_startup_timeout_and_exit() {
    let mut s = fresh_session();
    s.begin_start();
    assert!(matches!(s.startup_poll("still quiet", None, 100, 30_000), StartupOutcome::KeepWaiting));
    assert!(matches!(
        s.startup_poll("still quiet", None, 30_001, 30_000),
        StartupOutcome::StartFailed(_)
    ));
    let mut s2 = fresh_session();
    s2.begin_start();
    assert!(matches!(
        s2.startup_poll("still quiet", Some(1), 100, 30_000),
        StartupOutcome::StartFailed(_)
    ));
}

#[test]
fn test_start_idempotent_when_running() {
    let mut s = fresh_session();
    s.begin_start();
    s.startup_poll("ready> ", None, 0, 30_000);
    assert!(matches!(s.begin_start(), StartAction::AlreadyRunning));
    assert!(matches!(s.state, SessionState::Ready));
}

#[test]
fn test_manager_status_snapshot() {
    let config = Config::default();
    let mut m = SessionManager::from_config(&config);
    assert_eq!(m.len(), 3);
    let statuses = m.get_all_status();
    let names: Vec<&str> = statuses.iter().map(|s| s.name.as_str()).collect();
    assert_eq!(names, vec!["codex", "gemini", "opencode"]);
    assert!(statuses.iter().all(|s| s.state == "stopped"));
    let i = m.find("gemini").unwrap();
    let mut s = m.take_session(i);
    s.begin_start();
    m.put_session(i, s);
    let statuses = m.get_all_status();
    assert_eq!(statuses[i].state, "starting");
    assert!(m.find("nonexistent").is_none());
}

#[test]
fn test_poll_idle_without_request() {
    let mut s = fresh_session();
    s.begin_start();
    s.startup_poll("ready> ", None, 0, 30_000);
    assert!(matches!(s.poll(0, "stray output", None), PollOutcome::Idle));
}

#[test]
fn test_busy_session_start_is_noop_and_single_flight() {
    let mut s = fresh_session();
    s.begin_start();
    s.startup_poll("ready> ", None, 0, 30_000);
    s.enqueue(String::from("a1"), String::from("one"), 600_000);
    s.enqueue(String::from("a2"), String::from("two"), 600_000);
    s.dispatch(0, ReplyCursor::Pty(0)).unwrap();
    // At most one request is in flight: the second stays queued and
    // starting again changes nothing.
    assert!(matches!(s.begin_start(), StartAction::AlreadyRunning));
    assert!(matches!(&s.state, SessionState::Busy(id) if id == "a1"));
    assert!(s.dispatch(0, ReplyCursor::Pty(0)).is_none());
    assert!(s.has_request("a2"));
}
