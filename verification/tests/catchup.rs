use rexisce::xmpp::modules::catchup::{CatchupManager, CatchupState};

#[test]
fn start_returns_valid_query_id() {
    let mut mgr = CatchupManager::new();
    let (query_id, query) = mgr.start("alice@example.com", None);

    assert!(!query_id.is_empty(), "query_id must not be empty");
    assert_eq!(query_id.len(), 36, "query_id should be a UUID string");
    assert_eq!(query.query_id, query_id);
    assert_eq!(query.filter.with.as_deref(), Some("alice@example.com"));
    assert_eq!(query.rsm.max, 50, "default page size is 50");
    assert!(query.rsm.after.is_none());
}

#[test]
fn start_sets_after_cursor_when_last_stanza_id_given() {
    let mut mgr = CatchupManager::new();
    let (_, query) = mgr.start("bob@example.com", Some("stanza-id-42"));
    assert_eq!(query.rsm.after.as_deref(), Some("stanza-id-42"));
}

#[test]
fn on_result_returns_jid_for_active_query() {
    let mut mgr = CatchupManager::new();
    let (query_id, _) = mgr.start("carol@example.com", None);
    let jid = mgr.on_result(&query_id, "carol@example.com");
    assert_eq!(jid, Some("carol@example.com"));
}

#[test]
fn on_result_returns_none_for_unknown_query() {
    let mgr = CatchupManager::new();
    let result = mgr.on_result("no-such-query-id", "alice@example.com");
    assert!(result.is_none());
}

#[test]
fn on_fin_marks_complete() {
    let mut mgr = CatchupManager::new();
    let (query_id, _) = mgr.start("dave@example.com", Some("last-id"));
    assert!(matches!(mgr.state_for("dave@example.com"), CatchupState::Fetching { .. }));
    mgr.on_fin(&query_id);
    assert_eq!(mgr.state_for("dave@example.com"), CatchupState::Complete);
}

#[test]
fn is_idle_when_all_complete() {
    let mut mgr = CatchupManager::new();
    let (qid_a, _) = mgr.start("eve@example.com", None);
    let (qid_b, _) = mgr.start("frank@example.com", None);
    assert!(!mgr.is_idle());
    mgr.on_fin(&qid_a);
    assert!(!mgr.is_idle());
    mgr.on_fin(&qid_b);
    assert!(mgr.is_idle());
}

#[test]
fn reset_clears_all_states() {
    let mut mgr = CatchupManager::new();
    let (query_id, _) = mgr.start("grace@example.com", None);
    assert!(mgr.on_result(&query_id, "grace@example.com").is_some());
    assert!(!mgr.is_idle());
    mgr.reset();
    assert!(mgr.is_idle());
    assert!(mgr.on_result(&query_id, "grace@example.com").is_none());
    assert_eq!(mgr.state_for("grace@example.com"), CatchupState::Idle);
}

#[test]
fn is_idle_on_new_manager() {
    let mgr = CatchupManager::new();
    assert!(mgr.is_idle());
}

#[test]
fn on_fin_with_unknown_query_id_is_noop() {
    let mut mgr = CatchupManager::new();
    let (query_id, _) = mgr.start("henry@example.com", None);
    mgr.on_fin("not-a-real-query-id");
    assert!(matches!(mgr.state_for("henry@example.com"), CatchupState::Fetching { .. }));
    assert!(!mgr.is_idle());
    mgr.on_fin(&query_id);
}

#[test]
fn on_result_returns_none_after_fin() {
    let mut mgr = CatchupManager::new();
    let (query_id, _) = mgr.start("ivy@example.com", None);
    mgr.on_fin(&query_id);
    let result = mgr.on_result(&query_id, "ivy@example.com");
    assert!(result.is_none());
}

#[test]
fn restart_replaces_previous_query() {
    let mut mgr = CatchupManager::new();
    let (first, _) = mgr.start("jane@example.com", None);
    let (second, _) = mgr.start("jane@example.com", Some("x"));
    assert_ne!(first, second);
    assert_eq!(mgr.on_result(&second, "jane@example.com"), Some("jane@example.com"));
    match mgr.state_for("jane@example.com") {
        CatchupState::Fetching { query_id, after } => {
            assert_eq!(query_id, second);
            assert_eq!(after.as_deref(), Some("x"));
        }
        other => panic!("unexpected state {:?}", other),
    }
}

#[test]
fn fin_of_one_query_stops_results_of_the_other_query_of_that_conversation() {
    let mut mgr = CatchupManager::new();
    let (first, _) = mgr.start("kim@example.com", None);
    let (second, _) = mgr.start("kim@example.com", Some("x"));
    mgr.on_fin(&first);
    assert_eq!(mgr.on_result(&first, "kim@example.com"), None);
    assert_eq!(mgr.on_result(&second, "kim@example.com"), None);
    assert_eq!(mgr.state_for("kim@example.com"), CatchupState::Complete);
}

#[test]
fn last_start_stands_while_other_calls_leave_it_alone() {
    let mut m = CatchupManager::new();
    let (q_a, _) = m.start("a@example.com", Some("s-9"));
    let (q_b, _) = m.start("b@example.com", None);
    m.on_fin(&q_b);
    m.on_fin("unknown");
    assert_eq!(
        m.state_for("a@example.com"),
        CatchupState::Fetching { query_id: q_a.clone(), after: Some("s-9".to_string()) }
    );
    assert_eq!(m.on_result(&q_a, "a@example.com"), Some("a@example.com"));
    assert_eq!(m.state_for("c@example.com"), CatchupState::Idle);
}
