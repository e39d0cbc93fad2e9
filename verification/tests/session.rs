use nexcore_notebooklm::session::track_session;
use nexcore_notebooklm::session::SessionStore;
use nexcore_notebooklm::NotebookLmError;

#[test]
fn test_session_lifecycle() {
    let mut store = SessionStore::default();
    assert!(store.sessions.is_empty());

    // Create
    let sid = store.get_or_create("nb1");
    assert!(sid.is_ok());
    let sid = sid.unwrap_or_default();
    assert!(!sid.is_empty());

    // Get
    let session = store.get(&sid);
    assert!(session.is_ok());
    assert_eq!(session.map(|s| s.message_count).ok(), Some(0));

    // Get-or-create returns same session
    let sid2 = store.get_or_create("nb1").unwrap_or_default();
    assert_eq!(sid, sid2);
    assert_eq!(store.sessions.len(), 1);

    // Record messages
    assert!(store.record_message(&sid).is_ok());
    assert_eq!(store.get(&sid).map(|s| s.message_count).ok(), Some(1));

    // Reset
    assert!(store.reset(&sid).is_ok());
    assert_eq!(store.get(&sid).map(|s| s.message_count).ok(), Some(0));
}

#[test]
fn created_session_has_uuid_shape_and_fresh_fields() {
    let mut store = SessionStore::default();
    let (id, nb, count, created, last) = store
        .create("nb7")
        .map(|s| (s.id.clone(), s.notebook_id.clone(), s.message_count, s.created_at, s.last_activity))
        .unwrap_or_default();
    assert_eq!(id.len(), 36);
    for (pos, c) in id.chars().enumerate() {
        if [8, 13, 18, 23].contains(&pos) {
            assert_eq!(c, '-');
        } else {
            assert!(c.is_ascii_digit() || ('a'..='f').contains(&c));
        }
    }
    assert_eq!(id.as_bytes()[14], b'4');
    assert!(b"89ab".contains(&id.as_bytes()[19]));
    assert_eq!(nb, "nb7");
    assert_eq!(count, 0);
    assert!(created > 0);
    assert_eq!(created, last);
}

#[test]
fn create_with_uses_given_id_and_time() {
    let mut store = SessionStore::default();
    let s = store.create_with("s-1".to_string(), "nb1", 77);
    assert_eq!(s.id, "s-1");
    assert_eq!(s.notebook_id, "nb1");
    assert_eq!(s.created_at, 77);
    assert_eq!(s.last_activity, 77);
    assert_eq!(store.list().len(), 1);
    assert_eq!(store.get("s-1").map(|s| s.notebook_id.as_str()).ok(), Some("nb1"));
}

#[test]
fn get_or_create_distinguishes_notebooks() {
    let mut store = SessionStore::default();
    let a = store.get_or_create("nb1").unwrap_or_default();
    let b = store.get_or_create("nb2").unwrap_or_default();
    assert_ne!(a, b);
    assert_eq!(store.sessions.len(), 2);
    assert_eq!(store.get_or_create("nb1").unwrap_or_default(), a);
}

#[test]
fn record_and_reset_at_given_times() {
    let mut store = SessionStore::default();
    store.create_with("s".to_string(), "nb", 1);
    assert!(store.record_message_at("s", 5).is_ok());
    assert!(store.record_message_at("s", 6).is_ok());
    assert_eq!(store.get("s").map(|s| (s.message_count, s.last_activity)).ok(), Some((2, 6)));
    assert!(store.reset_at("s", 9).is_ok());
    assert_eq!(store.get("s").map(|s| (s.message_count, s.last_activity)).ok(), Some((0, 9)));
}

#[test]
fn missing_session_errors() {
    let mut store = SessionStore::default();
    match store.get("x") {
        Err(NotebookLmError::SessionNotFound(id)) => assert_eq!(id, "x"),
        other => panic!("unexpected: {other:?}"),
    }
    assert!(matches!(store.record_message("x"), Err(NotebookLmError::SessionNotFound(ref id)) if id == "x"));
    assert!(matches!(store.reset("x"), Err(NotebookLmError::SessionNotFound(ref id)) if id == "x"));
    assert!(matches!(store.close("x"), Err(NotebookLmError::SessionNotFound(ref id)) if id == "x"));
}

#[test]
fn close_removes_session() {
    let mut store = SessionStore::default();
    store.create_with("a".to_string(), "nb1", 1);
    store.create_with("b".to_string(), "nb2", 2);
    let closed = store.close("a").map(|s| s.notebook_id).ok();
    assert_eq!(closed.as_deref(), Some("nb1"));
    assert!(store.get("a").is_err());
    assert_eq!(store.list().len(), 1);
    assert_eq!(store.list()[0].id, "b");
    assert_eq!(store.get("b").map(|s| s.notebook_id.as_str()).ok(), Some("nb2"));
}

#[test]
fn track_session_with_given_id_changes_nothing() {
    let mut store = SessionStore::default();
    let sid = track_session(&mut store, Some("given"), "nb1");
    assert_eq!(sid.as_deref(), Some("given"));
    assert!(store.sessions.is_empty());
}

#[test]
fn track_session_records_a_message() {
    let mut store = SessionStore::default();
    let sid = track_session(&mut store, None, "nb1").unwrap_or_default();
    assert_eq!(store.sessions.len(), 1);
    assert_eq!(store.get(&sid).map(|s| s.message_count).ok(), Some(1));
    let again = track_session(&mut store, None, "nb1").unwrap_or_default();
    assert_eq!(again, sid);
    assert_eq!(store.sessions.len(), 1);
    assert_eq!(store.get(&sid).map(|s| s.message_count).ok(), Some(2));
}

#[test]
fn tracking_stops_at_maximal_count() {
    let mut store = SessionStore::default();
    store.create_with("s".to_string(), "nb1", 0);
    store.sessions[0].message_count = u32::MAX;
    assert_eq!(track_session(&mut store, None, "nb1"), None);
    assert_eq!(store.sessions.len(), 1);
    assert_eq!(store.sessions[0].message_count, u32::MAX);
    // another notebook is unaffected by the maximal count of "s"
    let other = track_session(&mut store, None, "nb2").unwrap_or_default();
    assert_eq!(store.get(&other).map(|s| s.message_count).ok(), Some(1));
}
