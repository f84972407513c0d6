use mcp_pty_server::manager::SessionManager;
use mcp_pty_server::session::{PtyError, PtySession, ReadEvent};
use mcp_pty_server::wait::{
    elapsed_ms, refusal_message, timeout_nanos, WaitFor, WaitForIdle, WaitStep,
};

fn showing(text: &str) -> SessionManager {
    let mut m = SessionManager::new();
    let mut s = PtySession::spawn("pty-1".to_string(), "/bin/sh", 80, 24, Ok(()), 0).unwrap();
    s.on_read(&ReadEvent::Bytes(text.as_bytes().to_vec()), 1_000_000_000);
    m.insert(s).unwrap();
    m
}

#[test]
fn send_keys_and_wait_for() {
    let m = showing("READY\r\n");
    let wait = match WaitFor::new("READY", Some(3000)) {
        Ok(wait) => wait,
        Err(_) => panic!("the pattern is sound"),
    };
    let found = wait.look(&m, "pty-1").unwrap();
    assert!(found);
    assert_eq!(wait.decide(found, 0), WaitStep::Done);
}

#[test]
fn patterns_are_regular_expressions() {
    let m = showing("done: 42 files\r\n$ ");
    for (pattern, expected) in [(r"\d+ files", true), (r"^\$ ?$", false), (r"(?m)^\$", true), ("FILES", false), ("(?i)FILES", true), ("", true)] {
        match WaitFor::new(pattern, None) {
            Ok(wait) => assert_eq!(wait.look(&m, "pty-1").unwrap(), expected, "{}", pattern),
            Err(e) => panic!("{}", e),
        }
    }
}

#[test]
fn invalid_patterns_are_refused() {
    match WaitFor::new("(", None) {
        Ok(_) => panic!("the pattern is not sound"),
        Err(text) => {
            assert!(text.starts_with("invalid regex: "));
            assert!(text.contains("unclosed group"));
        }
    }
    assert_eq!(refusal_message("why"), "invalid regex: why");
}

#[test]
fn missing_sessions_are_told() {
    let m = SessionManager::new();
    match WaitFor::new("x", None) {
        Ok(wait) => match wait.look(&m, "nope") {
            Err(PtyError::NotFound(id)) => assert_eq!(id, "nope"),
            _ => panic!("there is no session"),
        },
        Err(_) => panic!("the pattern is sound"),
    }
    match WaitForIdle::new(1).look(&m, "nope", 0) {
        Err(PtyError::NotFound(id)) => assert_eq!(id, "nope"),
        _ => panic!("there is no session"),
    }
}

#[test]
fn waits_end_in_time() {
    let wait = match WaitFor::new("x", Some(2)) {
        Ok(wait) => wait,
        Err(_) => panic!("the pattern is sound"),
    };
    assert_eq!(wait.decide(false, 0), WaitStep::Sleep { millis: 50 });
    assert_eq!(wait.decide(false, 1_999_999), WaitStep::Sleep { millis: 50 });
    assert_eq!(wait.decide(false, 2_000_000), WaitStep::TimedOut);
    assert_eq!(wait.decide(true, 2_000_000), WaitStep::Done);
    assert_eq!(timeout_nanos(None), 30_000_000_000);
    assert_eq!(timeout_nanos(Some(0)), 0);
    assert_eq!(timeout_nanos(Some(u64::MAX)), u64::MAX as u128 * 1_000_000);
}

#[test]
fn wait_for_idle_reports_idle() {
    let m = showing("hi\r\n");
    let wait = WaitForIdle::new(5_000_000_000);
    assert_eq!(wait.look(&m, "pty-1", 1_500_000_000).unwrap(), 500_000_000);
    assert_eq!(wait.decide(true, 600_000_000), WaitStep::Done);
    assert_eq!(wait.decide(false, 600_000_000), WaitStep::Sleep { millis: 100 });
    assert_eq!(wait.decide(false, 5_000_000_000), WaitStep::TimedOut);
}

#[test]
fn elapsed_time_is_in_milliseconds() {
    assert_eq!(elapsed_ms(0), 0);
    assert_eq!(elapsed_ms(999_999), 0);
    assert_eq!(elapsed_ms(1_000_000), 1);
    assert_eq!(elapsed_ms(1_234_567_890), 1234);
    assert_eq!(elapsed_ms((u64::MAX as u128 + 8) * 1_000_000), 7);
}
