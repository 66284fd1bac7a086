use exoclaw::store::SessionStore;

#[test]
fn new_and_default_start_empty() {
    let store = SessionStore::new();
    assert_eq!(store.count(), 0);

    let default_store = SessionStore::default();
    assert_eq!(default_store.count(), 0);
}

#[test]
fn get_or_create_reuses_existing_session() {
    let mut store = SessionStore::new();
    let created_at = {
        let session = store.get_or_create("web:acct:peer", "agent-a");
        assert_eq!(session.key, "web:acct:peer");
        assert_eq!(session.agent_id, "agent-a");
        assert_eq!(session.message_count, 0);
        session.created_at
    };

    let session = store.get_or_create("web:acct:peer", "agent-b");
    assert_eq!(session.agent_id, "agent-a");
    assert_eq!(session.created_at, created_at);
    assert_eq!(store.count(), 1);
}

#[test]
fn append_message_tracks_count_and_ignores_missing_session() {
    let mut store = SessionStore::new();
    store.append_message("missing", r#"{"role":"user","content":"ignored"}"#.to_string());
    assert!(store.get("missing").is_none());

    store.get_or_create("web:acct:peer", "agent-a");
    store.append_message("web:acct:peer", r#"{"role":"user","content":"hello"}"#.to_string());
    store.append_message("web:acct:peer", r#"{"role":"assistant","content":"world"}"#.to_string());

    let session = store.get("web:acct:peer").expect("session should exist");
    assert_eq!(session.message_count, 2);
    assert_eq!(session.messages.len(), 2);
}

#[test]
fn get_or_create_at_stamps_creation_time() {
    let mut store = SessionStore::new();
    let s = store.get_or_create_at("k", "a", 42);
    assert_eq!(s.created_at, 42);
    let s = store.get_or_create_at("k", "b", 99);
    assert_eq!(s.created_at, 42);
    assert_eq!(s.agent_id, "a");
}
