use rexisce::util::xml::Element;
use rexisce::xmpp::modules::ignore::{IgnoreManager, IGNORE_NODE_PREFIX, NS_IGNORED};
use rexisce::xmpp::modules::{NS_CLIENT, NS_PUBSUB};

#[test]
fn add_and_is_ignored() {
    let mut mgr = IgnoreManager::new();
    mgr.add("room@muc.server", "troll@server");
    assert!(mgr.is_ignored("room@muc.server", "troll@server"));
    assert!(!mgr.is_ignored("room@muc.server", "friend@server"));
}

#[test]
fn remove_clears_entry() {
    let mut mgr = IgnoreManager::new();
    mgr.add("room@muc.server", "troll@server");
    mgr.remove("room@muc.server", "troll@server");
    assert!(!mgr.is_ignored("room@muc.server", "troll@server"));
}

#[test]
fn is_ignored_false_for_unknown_room() {
    let mgr = IgnoreManager::new();
    assert!(!mgr.is_ignored("unknown@muc.server", "anyone@server"));
}

#[test]
fn build_publish_iq_contains_user_entries() {
    let mut mgr = IgnoreManager::new();
    mgr.add("room@muc.server", "troll@server");
    mgr.add("room@muc.server", "spammer@server");
    let iq = mgr.build_publish_iq("room@muc.server");
    assert_eq!(iq.name(), "iq");
    assert_eq!(iq.attr("type"), Some("set"));
    let pubsub = iq.get_child("pubsub", NS_PUBSUB);
    assert!(pubsub.is_some(), "<pubsub> missing");
    let publish = pubsub.unwrap().get_child("publish", NS_PUBSUB);
    assert!(publish.is_some(), "<publish> missing");
    let expected_node = format!("{}room@muc.server", IGNORE_NODE_PREFIX);
    assert_eq!(publish.unwrap().attr("node"), Some(expected_node.as_str()));
    let item = publish.unwrap().get_child("item", NS_PUBSUB);
    assert!(item.is_some(), "<item> missing");
    let ignored = item.unwrap().get_child("ignored", NS_IGNORED);
    assert!(ignored.is_some(), "<ignored> missing");
    let users: Vec<_> = ignored.unwrap().children().iter().collect();
    assert_eq!(users.len(), 2);
    let jids: Vec<&str> = users.iter().filter_map(|u| u.attr("jid")).collect();
    assert!(jids.contains(&"troll@server"));
    assert!(jids.contains(&"spammer@server"));
    assert_eq!(jids, vec!["spammer@server", "troll@server"], "users are published in sorted order");
}

#[test]
fn parse_result_restores_list() {
    let mut mgr = IgnoreManager::new();
    let ignored_el = Element::new("ignored", NS_IGNORED).with_child(Element::new("user", NS_IGNORED).with_attr("jid", "troll@server"));
    let item = Element::new("item", NS_PUBSUB).with_attr("id", "current").with_child(ignored_el);
    let items = Element::new("items", NS_PUBSUB).with_attr("node", "xmpp-start:ignore:room@muc.server").with_child(item);
    let pubsub = Element::new("pubsub", NS_PUBSUB).with_child(items);
    let iq = Element::new("iq", NS_CLIENT).with_attr("type", "result").with_child(pubsub);
    mgr.parse_result("room@muc.server", &iq);
    assert!(mgr.is_ignored("room@muc.server", "troll@server"));
    assert_eq!(mgr.list("room@muc.server").len(), 1);
}

#[test]
fn remove_noop_for_absent() {
    let mut mgr = IgnoreManager::new();
    mgr.add("room@muc.server", "alice@server");
    mgr.remove("room@muc.server", "nobody@server");
    assert_eq!(mgr.list("room@muc.server").len(), 1);
}

#[test]
fn parse_result_replaces_list_from_bare_element() {
    let mut mgr = IgnoreManager::new();
    mgr.add("r@muc", "old@server");
    let bare = Element::new("ignored", NS_IGNORED)
        .with_child(Element::new("user", NS_IGNORED).with_attr("jid", "b@server"))
        .with_child(Element::new("user", NS_IGNORED).with_attr("jid", "a@server"))
        .with_child(Element::new("note", NS_IGNORED).with_attr("jid", "c@server"));
    mgr.parse_result("r@muc", &bare);
    assert_eq!(mgr.list("r@muc"), vec!["a@server", "b@server"]);
}

#[test]
fn parse_result_without_payload_changes_nothing() {
    let mut mgr = IgnoreManager::new();
    mgr.add("r@muc", "x@server");
    mgr.parse_result("r@muc", &Element::new("iq", NS_CLIENT));
    assert_eq!(mgr.list("r@muc"), vec!["x@server"]);
}
