use mcp_pty_server::session::{
    exit_code, reader_action, PtyError, PtySession, ReadEvent, ReaderAction, SessionStatus,
    WaitOutcome,
};
use mcp_pty_server::terminal::is_usable_size;

fn open(id: &str, cols: u16, rows: u16) -> PtySession {
    PtySession::spawn(id.to_string(), "/bin/sh", cols, rows, Ok(()), 0).unwrap()
}

fn print(s: &mut PtySession, text: &str) {
    let action = s.on_read(&ReadEvent::Bytes(text.as_bytes().to_vec()), 1);
    assert_eq!(action, ReaderAction::Continue);
}

#[test]
fn spawn_and_capture_output() {
    let mut s = open("t1", 80, 24);
    print(&mut s, "hello-world\r\n");
    assert!(s.get_screen().contains("hello-world"));
}

#[test]
fn metadata_reports_dimensions() {
    let s = open("t2", 100, 30);
    let m = s.metadata();
    assert_eq!(m.cols, 100);
    assert_eq!(m.rows, 30);
    assert_eq!(m.status, SessionStatus::Running);
    assert_eq!(m.id, "t2");
    assert_eq!(m.command, "/bin/sh");
}

#[test]
fn resize_updates_parser() {
    let mut s = open("t3", 80, 24);
    s.resize(120, 40, Ok(())).unwrap();
    let m = s.metadata();
    assert_eq!(m.cols, 120);
    assert_eq!(m.rows, 40);
    // The terminal itself is wider too.
    print(&mut s, &"x".repeat(120));
    assert_eq!(s.get_screen(), "x".repeat(120));
    assert_eq!(s.cursor_position(), (0, 120));
}

#[test]
fn write_after_exit_errors() {
    let mut s = open("t4", 80, 24);
    assert_eq!(s.on_read(&ReadEvent::Bytes(vec![]), 1), ReaderAction::Stop);
    s.on_exit(WaitOutcome::Ended { success: true, code: 0 });
    assert!(matches!(s.status(), SessionStatus::Exited(_)));
    assert!(s.write_bytes(b"hi").is_err());
}

#[test]
fn writes_pass_while_running() {
    let s = open("t", 80, 24);
    assert_eq!(s.write_bytes(b"hi").unwrap(), b"hi");
}

#[test]
fn failures_are_told() {
    match PtySession::spawn("t".to_string(), "x", 80, 24, Err("no pty".to_string()), 0) {
        Err(e) => assert_eq!(e.message(), "pty spawn error: no pty"),
        Ok(_) => panic!("it was not opened"),
    }
    let mut s = open("t", 80, 24);
    match s.resize(100, 50, Err("bad fd".to_string())) {
        Err(e) => assert_eq!(e.message(), "pty spawn error: bad fd"),
        Ok(()) => panic!("it was not resized"),
    }
    assert_eq!((s.metadata().cols, s.metadata().rows), (80, 24));
}

#[test]
fn error_messages() {
    assert_eq!(PtyError::NotFound("x".to_string()).message(), "session not found: x");
    assert_eq!(PtyError::MaxSessions(32).message(), "max sessions reached: 32");
    assert_eq!(PtyError::Exited.message(), "session already exited");
    assert_eq!(PtyError::Spawn("a".to_string()).message(), "pty spawn error: a");
    assert_eq!(PtyError::Io("b".to_string()).message(), "io error: b");
}

#[test]
fn new_screen_is_blank() {
    let mut s = open("t", 80, 24);
    assert_eq!(s.get_screen(), "");
    assert_eq!(s.snapshot_screen(), "");
    assert_eq!(s.cursor_position(), (0, 0));
    assert!(s.get_scrollback(10).is_empty());
}

#[test]
fn screen_and_cursor_follow_output() {
    let mut s = open("t", 80, 24);
    print(&mut s, "abc\r\nde");
    assert_eq!(s.get_screen(), "abc\nde");
    assert_eq!(s.cursor_position(), (1, 2));
    print(&mut s, "\x1b[2J\x1b[H");
    assert_eq!(s.get_screen(), "");
    assert_eq!(s.cursor_position(), (0, 0));
}

#[test]
fn scrollback_is_oldest_first() {
    let mut s = open("t", 20, 3);
    for n in 1..=11 {
        print(&mut s, &format!("line {}\r\n", n));
    }
    // The screen holds the last two lines and the empty line of the cursor.
    assert_eq!(s.get_screen(), "line 10\nline 11");
    let all: Vec<String> = (1..=9).map(|n| format!("line {}", n)).collect();
    assert_eq!(s.get_scrollback(100), all);
    assert_eq!(s.get_scrollback(9), all);
    assert_eq!(s.get_scrollback(4), all[5..].to_vec());
    assert_eq!(s.get_scrollback(1), vec!["line 9"]);
    assert!(s.get_scrollback(0).is_empty());
    // Reading back changes nothing.
    assert_eq!(s.get_screen(), "line 10\nline 11");
    assert_eq!(s.cursor_position(), (2, 0));
}

#[test]
fn scrollback_keeps_blank_and_wrapped_rows() {
    let mut s = open("t", 4, 2);
    print(&mut s, "a\r\n\r\n\r\nabcdefgh\r\nb\r\nc\r\nd");
    assert_eq!(s.get_screen(), "c\nd");
    assert_eq!(s.get_scrollback(100), vec!["a", "", "", "abcd", "efgh", "b"]);
}

#[test]
fn scrollback_is_bounded() {
    let mut s = open("t", 20, 2);
    for n in 1..=5010 {
        print(&mut s, &format!("{}\r\n", n));
    }
    let lines = s.get_scrollback(usize::MAX);
    assert_eq!(lines.len(), 5000);
    assert_eq!(lines[0], "10");
    assert_eq!(lines[4999], "5009");
}

#[test]
fn reader_goes_on_until_the_end() {
    assert_eq!(reader_action(&ReadEvent::Bytes(vec![1])), ReaderAction::Continue);
    assert_eq!(reader_action(&ReadEvent::Bytes(vec![])), ReaderAction::Stop);
    assert_eq!(reader_action(&ReadEvent::Interrupted), ReaderAction::Continue);
    assert_eq!(reader_action(&ReadEvent::Failed), ReaderAction::Stop);
    let mut s = open("t", 80, 24);
    assert_eq!(s.on_read(&ReadEvent::Interrupted, 7), ReaderAction::Continue);
    assert_eq!(s.on_read(&ReadEvent::Failed, 8), ReaderAction::Stop);
    assert_eq!(s.idle_nanos(10), 10);
}

#[test]
fn exit_codes() {
    assert_eq!(exit_code(WaitOutcome::Ended { success: true, code: 0 }), 0);
    assert_eq!(exit_code(WaitOutcome::Ended { success: true, code: 9 }), 0);
    assert_eq!(exit_code(WaitOutcome::Ended { success: false, code: 2 }), 2);
    assert_eq!(exit_code(WaitOutcome::Ended { success: false, code: u32::MAX }), -1);
    assert_eq!(exit_code(WaitOutcome::Ended { success: false, code: 0x8000_0000 }), i32::MIN);
    assert_eq!(exit_code(WaitOutcome::Failed), -1);
    let mut s = open("t", 80, 24);
    s.on_exit(WaitOutcome::Ended { success: false, code: 3 });
    assert_eq!(s.status(), SessionStatus::Exited(3));
    // What is still read does not bring the program back.
    print(&mut s, "bye");
    s.resize(90, 20, Ok(())).unwrap();
    assert_eq!(s.status(), SessionStatus::Exited(3));
}

#[test]
fn silence_is_measured_from_the_last_output() {
    let mut s = PtySession::spawn("t".to_string(), "x", 80, 24, Ok(()), 100).unwrap();
    assert_eq!(s.idle_nanos(100), 0);
    assert_eq!(s.idle_nanos(350), 250);
    s.on_read(&ReadEvent::Bytes(b"x".to_vec()), 400);
    assert_eq!(s.idle_nanos(400), 0);
    assert_eq!(s.idle_nanos(1000), 600);
    assert_eq!(s.idle_nanos(300), 0);
}

#[test]
fn sizes() {
    assert!(is_usable_size(24, 80));
    assert!(is_usable_size(1, 1));
    assert!(is_usable_size(65535, 65527));
    assert!(!is_usable_size(0, 80));
    assert!(!is_usable_size(24, 0));
    assert!(!is_usable_size(24, 65528));
    let mut s = open("t", 1, 1);
    print(&mut s, "abc\u{4e2d}\t\u{2764}\u{fe0f}\x1b7\x1b8xyz");
    assert_eq!(s.get_screen(), "z");
    assert_eq!(s.metadata().rows, 1);
}

#[test]
fn shrinking_keeps_the_terminal_readable() {
    let mut s = open("t", 80, 24);
    print(&mut s, "\x1b[20;79H\x1b7\u{4e2d}\u{4e2d}");
    s.resize(3, 2, Ok(())).unwrap();
    print(&mut s, "\x1b8ab\u{4e2d}c\r\n\u{4e2d}\x1b[1@\x1b[1P\x1b[K");
    let (row, col) = s.cursor_position();
    assert!(row < 2);
    assert!(col <= 3);
}

#[test]
fn a_selector_makes_the_character_before_it_wide() {
    let mut s = open("t", 10, 3);
    print(&mut s, "\u{2764}");
    assert_eq!(s.cursor_position(), (0, 1));
    print(&mut s, "\u{fe0f}");
    assert_eq!(s.cursor_position(), (0, 2));
    print(&mut s, "x");
    assert_eq!(s.get_screen(), "\u{2764}\u{fe0f}x");
}

#[test]
fn a_selector_may_come_in_parts() {
    let mut s = open("t", 10, 3);
    for byte in "a\u{2764}\u{fe0f}b\u{ff21}c".bytes() {
        s.on_read(&ReadEvent::Bytes(vec![byte]), 1);
    }
    assert_eq!(s.get_screen(), "a\u{2764}\u{fe0f}b\u{ff21}c");
    assert_eq!(s.cursor_position(), (0, 7));
    s.on_read(&ReadEvent::Bytes(vec![0xef, 0xb8]), 1);
    assert_eq!(s.get_screen(), "a\u{2764}\u{fe0f}b\u{ff21}c");
    s.on_read(&ReadEvent::Bytes(vec![0x8e, b'd']), 1);
    assert_eq!(s.get_screen(), "a\u{2764}\u{fe0f}b\u{ff21}c\u{fe0e}d");
}

#[test]
fn a_selector_past_the_last_column_moves_the_character() {
    let mut s = open("t", 3, 2);
    print(&mut s, "ab\u{2764}");
    assert_eq!(s.cursor_position(), (0, 3));
    print(&mut s, "\u{fe0f}");
    assert_eq!(s.get_screen(), "ab\n\u{2764}\u{fe0f}");
    assert_eq!(s.cursor_position(), (1, 2));
}

#[test]
fn a_selector_for_a_narrow_character_stays_with_it() {
    let mut s = open("t", 3, 2);
    print(&mut s, "x\r\nabc\u{fe0f}");
    assert_eq!(s.get_screen(), "x\nabc\u{fe0f}");
    assert_eq!(s.cursor_position(), (1, 3));
    let mut s = open("t", 1, 2);
    print(&mut s, "a\u{fe0f}");
    assert_eq!(s.get_screen(), "a\u{fe0f}");
    assert_eq!(s.cursor_position(), (0, 1));
    print(&mut s, "b");
    assert_eq!(s.get_screen(), "a\u{fe0f}b");
}

#[test]
fn a_selector_that_leaves_half_a_character_is_taken_back() {
    let mut s = open("t", 3, 2);
    print(&mut s, "x\r\nab\u{2764}\u{fe0f}");
    assert_eq!(s.get_screen(), "x\nab\u{2764}");
    assert_eq!(s.cursor_position(), (1, 3));
    print(&mut s, "\rcde");
    assert_eq!(s.get_screen(), "x\ncde");
    // There is no room for a wide character in one column either.
    let mut s = open("t", 1, 2);
    print(&mut s, "\u{2764}\u{fe0f}");
    assert_eq!(s.get_screen(), "\u{2764}");
    assert_eq!(s.cursor_position(), (0, 1));
    print(&mut s, "ab");
    assert_eq!(s.get_screen(), "ab");
}

#[test]
fn metadata_over_a_run_of_calls() {
    let mut s = open("t9", 80, 24);
    s.resize(100, 30, Ok(())).unwrap();
    print(&mut s, "some output");
    assert!(matches!(s.resize(0, 0, Err("no".to_string())), Err(PtyError::Spawn(_))));
    s.get_scrollback(10);
    assert!(s.write_bytes(b"x").is_ok());
    s.on_exit(WaitOutcome::Ended { success: false, code: 4 });
    let m = s.metadata();
    assert_eq!((m.id.as_str(), m.command.as_str()), ("t9", "/bin/sh"));
    assert_eq!((m.cols, m.rows), (100, 30));
    assert_eq!(m.status, SessionStatus::Exited(4));
}

#[test]
fn a_failed_open_is_told_for_any_size() {
    match PtySession::spawn("t".to_string(), "x", 0, 0, Err("no pty".to_string()), 0) {
        Err(PtyError::Spawn(reason)) => assert_eq!(reason, "no pty"),
        _ => panic!("there is no terminal"),
    }
}
