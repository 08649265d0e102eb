use rexisce::util::xml::Element;
use rexisce::xmpp::modules::blocking::{BlockingManager, NS_BLOCKING};
use rexisce::xmpp::modules::NS_CLIENT;

fn push(kind: &str, jids: &[&str]) -> Element {
    let mut payload = Element::new(kind, NS_BLOCKING);
    for j in jids {
        payload.push_child(Element::new("item", NS_BLOCKING).with_attr("jid", j));
    }
    Element::new("iq", NS_CLIENT).with_attr("type", "set").with_attr("id", "push-1").with_child(payload)
}

fn seed(mgr: &mut BlockingManager, jids: &[&str]) {
    mgr.on_block_push(&push("block", jids));
}

#[test]
fn build_block_iq_has_ns() {
    let mut mgr = BlockingManager::new();
    let el = mgr.build_block_iq(&["troll@example.org"]);
    assert_eq!(el.attr("type"), Some("set"));
    let block = el.children().iter().find(|c| c.name() == "block").expect("no block child");
    assert_eq!(block.ns(), NS_BLOCKING);
    let item = block.children().iter().find(|c| c.name() == "item").expect("no item child");
    assert_eq!(item.attr("jid"), Some("troll@example.org"));
}

#[test]
fn on_blocklist_result_populates_set() {
    let mut mgr = BlockingManager::new();
    let blocklist = Element::new("blocklist", NS_BLOCKING)
        .with_child(Element::new("item", NS_BLOCKING).with_attr("jid", "spam@example.org"))
        .with_child(Element::new("item", NS_BLOCKING).with_attr("jid", "troll@example.org"));
    let iq = Element::new("iq", NS_CLIENT).with_attr("type", "result").with_attr("id", "fetch-1").with_child(blocklist);
    mgr.on_blocklist_result(&iq);
    assert!(mgr.is_blocked("spam@example.org"));
    assert!(mgr.is_blocked("troll@example.org"));
    assert_eq!(mgr.blocked_list().len(), 2);
}

#[test]
fn is_blocked_true_after_block() {
    let mut mgr = BlockingManager::new();
    mgr.on_block_push(&push("block", &["badactor@example.org"]));
    assert!(mgr.is_blocked("badactor@example.org"));
}

#[test]
fn on_unblock_push_removes_entry() {
    let mut mgr = BlockingManager::new();
    seed(&mut mgr, &["troll@example.org", "spam@example.org"]);
    mgr.on_unblock_push(&push("unblock", &["troll@example.org"]));
    assert!(!mgr.is_blocked("troll@example.org"));
    assert!(mgr.is_blocked("spam@example.org"));
}

#[test]
fn blocked_list_sorted() {
    let mut mgr = BlockingManager::new();
    seed(&mut mgr, &["charlie@example.org", "alice@example.org", "bob@example.org"]);
    let list = mgr.blocked_list();
    assert_eq!(list, vec!["alice@example.org", "bob@example.org", "charlie@example.org"]);
}

#[test]
fn empty_unblock_push_unblocks_everyone() {
    let mut mgr = BlockingManager::new();
    seed(&mut mgr, &["a@example.org", "b@example.org"]);
    mgr.on_unblock_push(&push("unblock", &[]));
    assert!(mgr.blocked_list().is_empty());
}

#[test]
fn blocklist_result_replaces_set_and_needs_result_type() {
    let mut mgr = BlockingManager::new();
    seed(&mut mgr, &["old@example.org"]);
    let blocklist = Element::new("blocklist", NS_BLOCKING).with_child(Element::new("item", NS_BLOCKING).with_attr("jid", "new@example.org"));
    let not_result = Element::new("iq", NS_CLIENT).with_attr("type", "set").with_child(blocklist.duplicate());
    mgr.on_blocklist_result(&not_result);
    assert_eq!(mgr.blocked_list(), vec!["old@example.org"]);
    let result = Element::new("iq", NS_CLIENT).with_attr("type", "result").with_child(blocklist);
    mgr.on_blocklist_result(&result);
    assert_eq!(mgr.blocked_list(), vec!["new@example.org"]);
}

#[test]
fn fetch_and_unblock_requests_have_fresh_ids() {
    let mut mgr = BlockingManager::new();
    let fetch = mgr.build_fetch_iq();
    assert_eq!(fetch.attr("type"), Some("get"));
    assert!(fetch.get_child("blocklist", NS_BLOCKING).is_some());
    let a = mgr.build_unblock_iq(&["x@example.org", "y@example.org"]);
    let b = mgr.build_unblock_iq(&["x@example.org"]);
    assert_ne!(a.attr("id"), b.attr("id"));
    assert_eq!(a.get_child("unblock", NS_BLOCKING).unwrap().children().len(), 2);
}
