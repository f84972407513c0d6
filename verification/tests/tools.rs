use mcp_pty_server::manager::SessionManager;
use mcp_pty_server::session::{PtySession, ReadEvent, SessionStatus, WaitOutcome};
use mcp_pty_server::tools::{
    keys_sent, plan_launch, pty_get_cursor, pty_get_screen, pty_get_scrollback, pty_kill,
    pty_launch, pty_list, pty_resize, pty_send_keys, start_directory, wait_for_idle_reply,
    wait_for_reply, LaunchParams, LaunchPlan, Reply,
};
use mcp_pty_server::wait::WaitStep;

fn plan(cols: Option<u16>, rows: Option<u16>) -> LaunchPlan {
    let params = LaunchParams {
        command: Some("/bin/sh".to_string()),
        args: Some(vec!["-c".to_string(), "sleep 2".to_string()]),
        cwd: None,
        cols,
        rows,
    };
    plan_launch(params, None)
}

fn launch(m: &mut SessionManager, cols: Option<u16>, rows: Option<u16>) -> String {
    match pty_launch(m, &plan(cols, rows), Ok(()), 0) {
        Reply::Launched { session_id, .. } => session_id,
        other => panic!("{:?}", other),
    }
}

fn error_of(reply: Reply) -> String {
    match reply {
        Reply::Error(text) => text,
        other => panic!("{:?}", other),
    }
}

#[test]
fn launch_and_list() {
    let mut m = SessionManager::new();
    let id = launch(&mut m, Some(80), Some(24));
    assert_eq!(id, "pty-1");
    match pty_list(&m) {
        Reply::Sessions(sessions) => {
            assert_eq!(sessions.len(), 1);
            assert_eq!(sessions[0].id, "pty-1");
            assert_eq!(sessions[0].command, "/bin/sh");
            assert_eq!(sessions[0].status, SessionStatus::Running);
            assert_eq!((sessions[0].cols, sessions[0].rows), (80, 24));
        }
        other => panic!("{:?}", other),
    }
    assert!(matches!(pty_kill(&mut m, &id), Reply::Killed { .. }));
}

#[test]
fn launch_defaults() {
    let open = LaunchParams { command: None, args: None, cwd: None, cols: None, rows: None };
    let p = plan_launch(open, None);
    assert_eq!(p.command, "/bin/sh");
    assert!(p.args.is_empty());
    assert_eq!(p.cwd, None);
    assert_eq!((p.cols, p.rows), (80, 24));
    let open = LaunchParams {
        command: None,
        args: None,
        cwd: Some("/tmp".to_string()),
        cols: Some(100),
        rows: Some(30),
    };
    let p = plan_launch(open, Some("/bin/zsh".to_string()));
    assert_eq!(p.command, "/bin/zsh");
    assert_eq!(p.cwd, Some("/tmp".to_string()));
    assert_eq!((p.cols, p.rows), (100, 30));
    let p = plan(None, None);
    assert_eq!(p.command, "/bin/sh");
    assert_eq!(p.args, vec!["-c", "sleep 2"]);
}

#[test]
fn failed_launch_uses_up_an_id() {
    let mut m = SessionManager::new();
    let reply = pty_launch(&mut m, &plan(None, None), Err("no such file".to_string()), 0);
    assert_eq!(error_of(reply), "launch failed: pty spawn error: no such file");
    assert_eq!(m.count(), 0);
    assert_eq!(launch(&mut m, None, None), "pty-2");
}

#[test]
fn launch_into_a_full_table_fails() {
    let mut m = SessionManager::new();
    for _ in 0..32 {
        launch(&mut m, None, None);
    }
    let reply = pty_launch(&mut m, &plan(None, None), Ok(()), 0);
    assert_eq!(error_of(reply), "insert failed: max sessions reached: 32");
    assert_eq!(m.count(), 32);
}

#[test]
fn get_cursor_and_screen() {
    let mut m = SessionManager::new();
    let id = launch(&mut m, Some(80), Some(24));
    m.get_mut(&id).unwrap().on_read(&ReadEvent::Bytes(b"abc".to_vec()), 1);
    match pty_get_screen(&m, &id) {
        Reply::Text(text) => assert!(text.contains("abc")),
        other => panic!("{:?}", other),
    }
    match pty_get_cursor(&m, &id) {
        Reply::Cursor { row, col } => {
            assert_eq!(row, 0);
            assert_eq!(col, 3);
        }
        other => panic!("{:?}", other),
    }
}

#[test]
fn kill_removes_session() {
    let mut m = SessionManager::new();
    let id = launch(&mut m, None, None);
    let other = launch(&mut m, None, None);
    match pty_kill(&mut m, &id) {
        Reply::Killed { session_id } => assert_eq!(session_id, id),
        reply => panic!("{:?}", reply),
    }
    assert!(matches!(pty_get_screen(&m, &id), Reply::Error(_)));
    assert!(matches!(pty_get_screen(&m, &other), Reply::Text(_)));
    assert_eq!(error_of(pty_kill(&mut m, &id)), "session not found: pty-1");
}

#[test]
fn get_screen_unknown_session_errors() {
    let m = SessionManager::new();
    let text = error_of(pty_get_screen(&m, "nope"));
    assert!(text.contains("not found"));
    assert_eq!(text, "session not found: nope");
}

#[test]
fn unknown_sessions_everywhere() {
    let mut m = SessionManager::new();
    assert_eq!(error_of(pty_get_cursor(&m, "x")), "session not found: x");
    assert_eq!(error_of(pty_get_scrollback(&mut m, "x", None)), "session not found: x");
    assert_eq!(error_of(pty_resize(&mut m, "x", 80, 24, Ok(()))), "session not found: x");
    match pty_send_keys(&m, "x", "a") {
        Err(reply) => assert_eq!(error_of(reply), "session not found: x"),
        Ok(_) => panic!("there is no session"),
    }
}

#[test]
fn keys_are_translated_and_counted() {
    let mut m = SessionManager::new();
    let id = launch(&mut m, None, None);
    let data = match pty_send_keys(&m, &id, "ls -la[ENTER]") {
        Ok(data) => data,
        Err(reply) => panic!("{:?}", reply),
    };
    assert_eq!(data, b"ls -la\r".to_vec());
    match keys_sent(&data, Ok(())) {
        Reply::Sent { bytes_sent } => assert_eq!(bytes_sent, 7),
        other => panic!("{:?}", other),
    }
    assert_eq!(
        error_of(keys_sent(&data, Err("broken pipe".to_string()))),
        "send_keys failed: io error: broken pipe"
    );
}

#[test]
fn keys_for_an_exited_program_are_refused() {
    let mut m = SessionManager::new();
    let id = launch(&mut m, None, None);
    m.get_mut(&id).unwrap().on_exit(WaitOutcome::Failed);
    match pty_send_keys(&m, &id, "a") {
        Err(reply) => assert_eq!(error_of(reply), "send_keys failed: session already exited"),
        Ok(_) => panic!("the program has exited"),
    }
}

#[test]
fn resize_changes_or_tells() {
    let mut m = SessionManager::new();
    let id = launch(&mut m, None, None);
    match pty_resize(&mut m, &id, 120, 40, Ok(())) {
        Reply::Resized { cols, rows } => assert_eq!((cols, rows), (120, 40)),
        other => panic!("{:?}", other),
    }
    let reply = pty_resize(&mut m, &id, 10, 10, Err("gone".to_string()));
    assert_eq!(error_of(reply), "resize failed: pty spawn error: gone");
    let now = m.get(&id).unwrap().metadata();
    assert_eq!((now.cols, now.rows), (120, 40));
}

#[test]
fn scrollback_of_a_session() {
    let mut m = SessionManager::new();
    let mut s = PtySession::spawn("pty-1".to_string(), "seq", 20, 2, Ok(()), 0).unwrap();
    for n in 1..=151 {
        s.on_read(&ReadEvent::Bytes(format!("{}\r\n", n).into_bytes()), 1);
    }
    m.insert(s).unwrap();
    match pty_get_scrollback(&mut m, "pty-1", None) {
        Reply::Lines(lines) => {
            assert_eq!(lines.len(), 100);
            assert_eq!(lines[0], "51");
            assert_eq!(lines[99], "150");
        }
        other => panic!("{:?}", other),
    }
    match pty_get_scrollback(&mut m, "pty-1", Some(2)) {
        Reply::Lines(lines) => assert_eq!(lines, vec!["149", "150"]),
        other => panic!("{:?}", other),
    }
}

#[test]
fn failures_are_answered_for_any_size() {
    let mut m = SessionManager::new();
    assert_eq!(error_of(pty_resize(&mut m, "nope", 0, 0, Ok(()))), "session not found: nope");
    let reply = pty_launch(&mut m, &plan(Some(0), Some(0)), Err("no pty".to_string()), 0);
    assert_eq!(error_of(reply), "launch failed: pty spawn error: no pty");
    let id = launch(&mut m, None, None);
    let reply = pty_resize(&mut m, &id, 0, 0, Err("bad size".to_string()));
    assert_eq!(error_of(reply), "resize failed: pty spawn error: bad size");
    let now = m.get(&id).unwrap().metadata();
    assert_eq!((now.cols, now.rows), (80, 24));
}

#[test]
fn start_directories() {
    assert_eq!(start_directory(Some("/a"), Some("/b")), Some("/a"));
    assert_eq!(start_directory(None, Some("/b")), Some("/b"));
    assert_eq!(start_directory(Some("/a"), None), Some("/a"));
    assert_eq!(start_directory::<&str>(None, None), None);
}

#[test]
fn waits_are_answered_when_they_end() {
    match wait_for_reply(WaitStep::Done, 1_999_999) {
        Some(Reply::Waited { status, elapsed_ms }) => {
            assert_eq!(status, "matched");
            assert_eq!(elapsed_ms, 1);
        }
        other => panic!("{:?}", other),
    }
    match wait_for_reply(WaitStep::TimedOut, 30_000_000_000) {
        Some(Reply::Waited { status, elapsed_ms }) => {
            assert_eq!(status, "timeout");
            assert_eq!(elapsed_ms, 30_000);
        }
        other => panic!("{:?}", other),
    }
    assert!(wait_for_reply(WaitStep::Sleep { millis: 50 }, 5).is_none());
    match wait_for_idle_reply(WaitStep::Done, 2_500_000_000, 7_000_000) {
        Some(Reply::WaitedForIdle { status, idle_nanos, elapsed_ms }) => {
            assert_eq!(status, "idle");
            assert_eq!(idle_nanos, 2_500_000_000);
            assert_eq!(elapsed_ms, 7);
        }
        other => panic!("{:?}", other),
    }
    match wait_for_idle_reply(WaitStep::TimedOut, 3, 0) {
        Some(Reply::WaitedForIdle { status, .. }) => assert_eq!(status, "timeout"),
        other => panic!("{:?}", other),
    }
    assert!(wait_for_idle_reply(WaitStep::Sleep { millis: 100 }, 1, 5).is_none());
}

#[test]
fn the_living_are_listed_in_launch_order() {
    let mut m = SessionManager::new();
    for _ in 0..11 {
        launch(&mut m, None, None);
    }
    pty_launch(&mut m, &plan(None, None), Err("no pty".to_string()), 0);
    pty_kill(&mut m, "pty-2");
    pty_kill(&mut m, "pty-99");
    pty_resize(&mut m, "pty-3", 10, 10, Ok(()));
    pty_get_scrollback(&mut m, "pty-1", None);
    launch(&mut m, None, None);
    let ids: Vec<String> = m.list().into_iter().map(|entry| entry.id).collect();
    let numbers = [1, 3, 4, 5, 6, 7, 8, 9, 10, 11, 13];
    let expected: Vec<String> = numbers.iter().map(|n| format!("pty-{}", n)).collect();
    assert_eq!(ids, expected);
}
