use mcp_pty_server::ids::{session_id, session_number};
use mcp_pty_server::manager::{SessionManager, DEFAULT_MAX_SESSIONS};
use mcp_pty_server::session::{PtyError, PtySession};

fn session(id: &str) -> PtySession {
    PtySession::spawn(id.to_string(), "/bin/sh", 80, 24, Ok(()), 0).unwrap()
}

#[test]
fn generate_ids_monotonic() {
    let mut m = SessionManager::new();
    assert_eq!(m.generate_id(), "pty-1");
    assert_eq!(m.generate_id(), "pty-2");
}

#[test]
fn empty_list_and_get() {
    let m = SessionManager::new();
    assert_eq!(m.count(), 0);
    assert!(m.list().is_empty());
    assert!(m.get("nope").is_err());
}

#[test]
fn default_is_empty() {
    let mut m = SessionManager::default();
    assert_eq!(m.count(), 0);
    assert!(m.has_ids_left());
    assert_eq!(m.generate_id(), "pty-1");
}

#[test]
fn ids_and_numbers_are_inverse() {
    for n in [0, 1, 9, 10, 99, 100, 12345, u64::MAX] {
        assert_eq!(session_id(n), format!("pty-{}", n));
        assert_eq!(session_number(&session_id(n)), n);
    }
}

#[test]
fn ids_of_another_form_have_number_zero() {
    for id in ["", "pty", "pty-", "pty-x", "pty-1x", "pty--1", "pty-+", "tty-7", "pty-18446744073709551616", "7"] {
        assert_eq!(session_number(id), 0, "{}", id);
    }
    assert_eq!(session_number("pty-+7"), 7);
    assert_eq!(session_number("pty-007"), 7);
    assert_eq!(session_number("pty-18446744073709551615"), u64::MAX);
}

#[test]
fn listing_follows_the_numbers() {
    let mut m = SessionManager::new();
    for n in [10, 2, 33, 1, 9] {
        assert!(m.insert(session(&session_id(n))).is_ok());
    }
    let ids: Vec<String> = m.list().into_iter().map(|e| e.id).collect();
    assert_eq!(ids, vec!["pty-1", "pty-2", "pty-9", "pty-10", "pty-33"]);
}

#[test]
fn full_table_refuses_and_stays() {
    let mut m = SessionManager::new();
    for n in 0..DEFAULT_MAX_SESSIONS {
        assert_eq!(m.insert(session(&format!("pty-{}", n + 1))).unwrap(), format!("pty-{}", n + 1));
    }
    assert_eq!(m.count(), 32);
    match m.insert(session("pty-33")) {
        Err(PtyError::MaxSessions(max)) => assert_eq!(max, 32),
        _ => panic!("the table was full"),
    }
    // Even a session that is there already is refused.
    assert!(m.insert(session("pty-1")).is_err());
    assert_eq!(m.count(), 32);
    assert!(m.get("pty-33").is_err());
}

#[test]
fn same_id_replaces() {
    let mut m = SessionManager::new();
    m.insert(session("a")).unwrap();
    let other = PtySession::spawn("a".to_string(), "top", 100, 30, Ok(()), 5).unwrap();
    assert_eq!(m.insert(other).unwrap(), "a");
    assert_eq!(m.count(), 1);
    assert_eq!(m.get("a").unwrap().metadata().command, "top");
}

#[test]
fn remove_takes_one_out() {
    let mut m = SessionManager::new();
    m.insert(session("pty-1")).unwrap();
    m.insert(session("pty-2")).unwrap();
    m.insert(session("pty-3")).unwrap();
    let taken = m.remove("pty-2").unwrap();
    assert_eq!(taken.id(), "pty-2");
    assert_eq!(m.count(), 2);
    assert!(m.get("pty-2").is_err());
    assert_eq!(m.get("pty-3").unwrap().id(), "pty-3");
    match m.remove("pty-2") {
        Err(PtyError::NotFound(id)) => assert_eq!(id, "pty-2"),
        _ => panic!("it was taken out"),
    }
}

#[test]
fn get_mut_changes_in_place() {
    let mut m = SessionManager::new();
    m.insert(session("pty-1")).unwrap();
    m.insert(session("pty-2")).unwrap();
    m.get_mut("pty-2").unwrap().resize(100, 40, Ok(())).unwrap();
    assert_eq!(m.get("pty-1").unwrap().metadata().cols, 80);
    assert_eq!(m.get("pty-2").unwrap().metadata().cols, 100);
    assert!(m.get_mut("pty-3").is_err());
}
