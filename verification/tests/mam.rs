use rexisce::util::xml::Element;
use rexisce::xmpp::modules::mam::{MamFilter, MamManager, MamQuery, RsmQuery, NS_DELAY, NS_RSM};
use rexisce::xmpp::modules::{NS_CLIENT, NS_FORWARD, NS_MAM};

fn make_query(query_id: &str) -> MamQuery {
    MamQuery {
        query_id: query_id.to_string(),
        filter: MamFilter { with: Some("bob@example.com".to_string()), start: None, end: None },
        rsm: RsmQuery { max: 50, after: None, before: None },
    }
}

fn make_mam_message(query_id: &str, archive_id: &str, stamp: &str, from: &str, body: &str) -> Element {
    let body_el = Element::new("body", NS_CLIENT).with_text(body);
    let inner_msg = Element::new("message", NS_CLIENT).with_attr("from", from).with_child(body_el);
    let delay = Element::new("delay", NS_DELAY).with_attr("stamp", stamp);
    let forwarded = Element::new("forwarded", NS_FORWARD).with_child(delay).with_child(inner_msg);
    let result_el = Element::new("result", NS_MAM)
        .with_attr("queryid", query_id)
        .with_attr("id", archive_id)
        .with_child(forwarded);
    Element::new("message", NS_CLIENT).with_child(result_el)
}

fn make_fin_iq(query_id: Option<&str>, complete: bool, first: &str, last: &str, count: u32) -> Element {
    let rsm_set = Element::new("set", NS_RSM)
        .with_child(Element::new("first", NS_RSM).with_text(first))
        .with_child(Element::new("last", NS_RSM).with_text(last))
        .with_child(Element::new("count", NS_RSM).with_text(count.to_string().as_str()));
    let mut fin = Element::new("fin", NS_MAM)
        .with_attr("complete", if complete { "true" } else { "false" })
        .with_child(rsm_set);
    if let Some(qid) = query_id {
        fin = fin.with_attr("queryid", qid);
    }
    Element::new("iq", NS_CLIENT).with_attr("type", "result").with_child(fin)
}

// Tests ------------------------------------------------------------------

// 1. New manager has no pending queries.
#[test]
fn mam_manager_new_is_empty() {
    let mgr = MamManager::new();
    assert!(!mgr.is_pending("any-id"));
    assert!(mgr.pending_len() == 0);
    assert!(mgr.results_len() == 0);
}

// 2. build_query_iq registers the query as pending.
#[test]
fn build_query_iq_stores_pending() {
    let mut mgr = MamManager::new();
    let q = make_query("qid-1");
    mgr.build_query_iq(q);
    assert!(mgr.is_pending("qid-1"));
}

// 3. build_query_iq sets the queryid attribute on the <query> element.
#[test]
fn build_query_iq_contains_queryid() {
    let mut mgr = MamManager::new();
    let q = make_query("qid-2");
    let iq = mgr.build_query_iq(q);

    let query_el = iq
        .children()
        .iter()
        .find(|c| c.name() == "query" && c.ns() == NS_MAM)
        .expect("iq must contain <query xmlns='urn:xmpp:mam:2'>");

    assert_eq!(query_el.attr("queryid"), Some("qid-2"));
}

// 4. build_query_iq includes a <set><max> RSM element.
#[test]
fn build_query_iq_has_max_rsm() {
    let mut mgr = MamManager::new();
    let mut q = make_query("qid-3");
    q.rsm.max = 20;
    let iq = mgr.build_query_iq(q);

    let query_el = iq
        .children()
        .iter()
        .find(|c| c.name() == "query" && c.ns() == NS_MAM)
        .expect("must contain <query>");

    let rsm_set = query_el
        .children()
        .iter()
        .find(|c| c.name() == "set" && c.ns() == NS_RSM)
        .expect("query must contain RSM <set>");

    let max_el = rsm_set
        .children()
        .iter()
        .find(|c| c.name() == "max")
        .expect("<set> must contain <max>");

    assert_eq!(max_el.text(), "20");
}

// 5. is_pending returns true immediately after building the query.
#[test]
fn is_pending_returns_true_after_query() {
    let mut mgr = MamManager::new();
    assert!(!mgr.is_pending("qid-5"));
    mgr.build_query_iq(make_query("qid-5"));
    assert!(mgr.is_pending("qid-5"));
}

// 6. on_mam_message parses body, archive_id, query_id, from, and timestamp.
#[test]
fn on_mam_message_parses_body() {
    let mut mgr = MamManager::new();
    mgr.build_query_iq(make_query("qid-6"));

    let el = make_mam_message(
        "qid-6",
        "archive-001",
        "2024-01-15T10:00:00Z",
        "bob@example.com/res",
        "Hello, Alice!",
    );

    let msg = mgr.on_mam_message(&el).expect("should parse mam message");
    assert_eq!(msg.archive_id, "archive-001");
    assert_eq!(msg.query_id, "qid-6");
    assert_eq!(msg.timestamp, "2024-01-15T10:00:00Z");
    assert_eq!(msg.forwarded_from, "bob@example.com/res");
    assert_eq!(msg.body, "Hello, Alice!");
}

// 7. on_fin_iq returns the accumulated result with RSM metadata.
#[test]
fn on_fin_iq_returns_result() {
    let mut mgr = MamManager::new();
    mgr.build_query_iq(make_query("qid-7"));

    // Push two messages first.
    let m1 = make_mam_message(
        "qid-7",
        "uid-1",
        "2024-01-01T00:00:00Z",
        "bob@example.com",
        "msg1",
    );
    let m2 = make_mam_message(
        "qid-7",
        "uid-2",
        "2024-01-01T00:01:00Z",
        "bob@example.com",
        "msg2",
    );
    mgr.on_mam_message(&m1);
    mgr.on_mam_message(&m2);

    let fin = make_fin_iq(Some("qid-7"), false, "uid-1", "uid-2", 100);
    let (returned_qid, result) = mgr.on_fin_iq(&fin).expect("should return result");

    assert_eq!(returned_qid, "qid-7");
    assert_eq!(result.messages.len(), 2);
    assert_eq!(result.rsm.first, Some("uid-1".to_string()));
    assert_eq!(result.rsm.last, Some("uid-2".to_string()));
    assert_eq!(result.rsm.count, Some(100));
    assert!(!result.complete);
}

// 8. on_fin_iq correctly reads the complete='true' flag.
#[test]
fn on_fin_iq_complete_flag() {
    let mut mgr = MamManager::new();
    mgr.build_query_iq(make_query("qid-8"));

    let fin = make_fin_iq(Some("qid-8"), true, "uid-a", "uid-z", 5);
    let (_, result) = mgr.on_fin_iq(&fin).expect("should return result");

    assert!(result.complete);
}

// 9. on_fin_iq removes the query from pending.
#[test]
fn on_fin_iq_clears_pending() {
    let mut mgr = MamManager::new();
    mgr.build_query_iq(make_query("qid-9"));
    assert!(mgr.is_pending("qid-9"));

    let fin = make_fin_iq(Some("qid-9"), true, "a", "b", 0);
    mgr.on_fin_iq(&fin);

    assert!(!mgr.is_pending("qid-9"));
}

// 10. on_mam_message returns None for non-MAM messages.
#[test]
fn on_mam_message_ignores_plain_message() {
    let mut mgr = MamManager::new();
    let el = Element::new("message", NS_CLIENT)
        .with_attr("from", "bob@example.com")
        .with_child(Element::new("body", NS_CLIENT).with_text("hi"));

    assert!(mgr.on_mam_message(&el).is_none());
}

// 11. build_query_iq includes <after> cursor when rsm.after is set.
#[test]
fn build_query_iq_includes_after_cursor() {
    let mut mgr = MamManager::new();
    let mut q = make_query("qid-11");
    q.rsm.after = Some("cursor-abc".to_string());
    let iq = mgr.build_query_iq(q);

    let query_el = iq
        .children()
        .iter()
        .find(|c| c.name() == "query" && c.ns() == NS_MAM)
        .unwrap();

    let rsm_set = query_el
        .children()
        .iter()
        .find(|c| c.name() == "set" && c.ns() == NS_RSM)
        .unwrap();

    let after_el = rsm_set
        .children()
        .iter()
        .find(|c| c.name() == "after")
        .expect("<set> must contain <after> when cursor set");

    assert_eq!(after_el.text(), "cursor-abc");
}

#[test]
fn on_fin_iq_without_queryid_uses_single_pending_query() {
    let mut mgr = MamManager::new();
    mgr.build_query_iq(make_query("only"));
    let fin = make_fin_iq(None, true, "a", "b", 2);
    let (qid, result) = mgr.on_fin_iq(&fin).expect("single pending query is used");
    assert_eq!(qid, "only");
    assert!(result.complete);
    assert_eq!(result.rsm.count, Some(2));
    assert!(!mgr.is_pending("only"));
}

#[test]
fn on_fin_iq_without_queryid_and_two_pending_is_none() {
    let mut mgr = MamManager::new();
    mgr.build_query_iq(make_query("a"));
    mgr.build_query_iq(make_query("b"));
    let fin = make_fin_iq(None, true, "x", "y", 0);
    assert!(mgr.on_fin_iq(&fin).is_none());
    assert!(mgr.is_pending("a"));
    assert!(mgr.is_pending("b"));
}
