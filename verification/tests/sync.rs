use rexisce::xmpp::modules::mam::MamMessage;
use rexisce::xmpp::modules::sync::SyncOrchestrator;

// Helper: build a minimal MamMessage for a given query_id.
fn make_msg(query_id: &str, archive_id: &str) -> MamMessage {
    MamMessage {
        archive_id: archive_id.to_string(),
        query_id: query_id.to_string(),
        timestamp: "2024-01-01T00:00:00Z".to_string(),
        forwarded_from: "alice@example.com".to_string(),
        body: "hello".to_string(),
    }
}

// 1. start_sync returns exactly one IQ element per conversation.
#[test]
fn start_sync_returns_one_iq_per_conversation() {
    let mut orch = SyncOrchestrator::new();
    let conversations = vec![
        ("alice@example.com".to_string(), None),
        ("bob@example.com".to_string(), Some("stanza-42".to_string())),
        ("carol@example.com".to_string(), None),
    ];
    let result = orch.start_sync(&conversations);
    assert_eq!(result.len(), 3);
}

// 2. start_sync with no conversations returns empty vec.
#[test]
fn start_sync_with_no_conversations_returns_empty() {
    let mut orch = SyncOrchestrator::new();
    let result = orch.start_sync(&[]);
    assert!(result.is_empty());
    assert!(orch.is_complete());
}

// 3. on_mam_result accumulates messages and returns the correct JID.
#[test]
fn on_mam_result_accumulates_messages() {
    let mut orch = SyncOrchestrator::new();
    let conversations = vec![("alice@example.com".to_string(), None)];
    let pairs = orch.start_sync(&conversations);
    let query_id = &pairs[0].0;

    let msg1 = make_msg(query_id, "arc-1");
    let msg2 = make_msg(query_id, "arc-2");

    let jid1 = orch.on_mam_result(msg1).expect("should return JID");
    let jid2 = orch.on_mam_result(msg2).expect("should return JID");

    assert_eq!(jid1, "alice@example.com");
    assert_eq!(jid2, "alice@example.com");
    assert_eq!(orch.received_len(), 2);
    assert_eq!(orch.total_fetched(), 2);
}

// 4. on_mam_result returns None for an unknown query_id.
#[test]
fn on_mam_result_unknown_query_returns_none() {
    let mut orch = SyncOrchestrator::new();
    let msg = make_msg("unknown-query-id", "arc-99");
    assert!(orch.on_mam_result(msg).is_none());
}

// 5. on_fin returns the JID and the count of messages received for it.
#[test]
fn on_fin_returns_jid_and_count() {
    let mut orch = SyncOrchestrator::new();
    let conversations = vec![("bob@example.com".to_string(), None)];
    let pairs = orch.start_sync(&conversations);
    let query_id = pairs[0].0.clone();

    orch.on_mam_result(make_msg(&query_id, "arc-a"));
    orch.on_mam_result(make_msg(&query_id, "arc-b"));
    orch.on_mam_result(make_msg(&query_id, "arc-c"));

    let (jid, count) = orch.on_fin(&query_id).expect("should return result");
    assert_eq!(jid, "bob@example.com");
    assert_eq!(count, 3);
}

// 6. is_complete returns true only when all fins have been received.
#[test]
fn is_complete_when_all_fins_received() {
    let mut orch = SyncOrchestrator::new();
    let conversations = vec![
        ("alice@example.com".to_string(), None),
        ("bob@example.com".to_string(), None),
    ];
    let pairs = orch.start_sync(&conversations);
    let qid_a = pairs[0].0.clone();
    let qid_b = pairs[1].0.clone();

    assert!(!orch.is_complete());

    orch.on_fin(&qid_a);
    assert!(!orch.is_complete(), "still one pending after first fin");

    orch.on_fin(&qid_b);
    assert!(orch.is_complete(), "all fins received — should be complete");
}

// 7. on_fin returns None for an unknown query_id.
#[test]
fn on_fin_unknown_query_returns_none() {
    let mut orch = SyncOrchestrator::new();
    assert!(orch.on_fin("no-such-query").is_none());
}

// 8. drain_messages empties the buffer and returns all accumulated messages.
#[test]
fn drain_messages_clears_buffer() {
    let mut orch = SyncOrchestrator::new();
    let pairs = orch.start_sync(&[("alice@example.com".to_string(), None)]);
    let qid = &pairs[0].0;

    orch.on_mam_result(make_msg(qid, "arc-1"));
    orch.on_mam_result(make_msg(qid, "arc-2"));

    let drained = orch.drain_messages();
    assert_eq!(drained.len(), 2);
    assert!(
        orch.received_len() == 0,
        "buffer should be empty after drain"
    );
}

// 9. Each IQ produced by start_sync carries a unique query_id.
#[test]
fn start_sync_each_iq_has_unique_query_id() {
    let mut orch = SyncOrchestrator::new();
    let conversations = vec![
        ("alice@example.com".to_string(), None),
        ("bob@example.com".to_string(), None),
        ("carol@example.com".to_string(), None),
    ];
    let pairs = orch.start_sync(&conversations);
    let mut ids: Vec<&str> = pairs.iter().map(|(qid, _)| qid.as_str()).collect();
    ids.dedup();
    assert_eq!(ids.len(), 3, "all query IDs must be unique");
}

// 10. start_sync with a last_stanza_id sets the after RSM cursor in the IQ.
#[test]
fn start_sync_sets_after_cursor_when_last_stanza_id_present() {
    const NS_MAM: &str = "urn:xmpp:mam:2";
    const NS_RSM: &str = "http://jabber.org/protocol/rsm";

    let mut orch = SyncOrchestrator::new();
    let conversations = vec![(
        "alice@example.com".to_string(),
        Some("cursor-xyz".to_string()),
    )];
    let pairs = orch.start_sync(&conversations);
    let iq = &pairs[0].1;

    let query_el = iq
        .children()
        .iter()
        .find(|c| c.name() == "query" && c.ns() == NS_MAM)
        .expect("IQ must contain MAM <query>");

    let rsm_set = query_el
        .children()
        .iter()
        .find(|c| c.name() == "set" && c.ns() == NS_RSM)
        .expect("<query> must contain RSM <set>");

    let after_el = rsm_set
        .children()
        .iter()
        .find(|c| c.name() == "after")
        .expect("<set> must contain <after> when last_stanza_id is set");

    assert_eq!(after_el.text(), "cursor-xyz");
}

#[test]
fn repeated_conversation_completes_only_after_both_queries_finish() {
    let mut orch = SyncOrchestrator::new();
    let pairs = orch.start_sync(&[
        ("alice@example.com".to_string(), None),
        ("alice@example.com".to_string(), Some("x".to_string())),
    ]);
    assert!(!orch.is_complete());
    assert!(orch.on_fin(&pairs[0].0).is_some());
    assert!(!orch.is_complete());
    assert!(orch.on_fin(&pairs[1].0).is_some());
    assert!(orch.is_complete());
}

#[test]
fn empty_sync_is_complete() {
    let mut orch = SyncOrchestrator::new();
    let pairs = orch.start_sync(&[]);
    assert!(pairs.is_empty());
    assert!(orch.is_complete());
}

#[test]
fn completes_after_fins_in_any_order_ignoring_unknown() {
    let mut orch = SyncOrchestrator::new();
    let conversations = vec![
        ("alice@example.com".to_string(), None),
        ("bob@example.com".to_string(), Some("s-1".to_string())),
    ];
    let pairs = orch.start_sync(&conversations);
    assert!(orch.on_fin("not-ours").is_none());
    assert!(!orch.is_complete());
    assert!(orch.on_fin(&pairs[1].0).is_some());
    assert!(!orch.is_complete());
    assert!(orch.on_fin(&pairs[0].0).is_some());
    assert!(orch.is_complete());
}
