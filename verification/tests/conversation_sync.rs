use rexisce::util::xml::Element;
use rexisce::xmpp::modules::conversation_sync::{ConversationSyncManager, SyncedConversation, CONV_SYNC_NODE};
use rexisce::xmpp::modules::{NS_CLIENT, NS_PUBSUB};

fn make_conversations() -> Vec<SyncedConversation> {
    vec![
        SyncedConversation { jid: "alice@server".to_string(), archived: false },
        SyncedConversation { jid: "room@muc.server".to_string(), archived: true },
    ]
}

#[test]
fn build_publish_iq_contains_conversations() {
    let mgr = ConversationSyncManager::new();
    let iq = mgr.build_publish_iq(&make_conversations());
    assert_eq!(iq.name(), "iq");
    assert_eq!(iq.attr("type"), Some("set"));
    let pubsub = iq.get_child("pubsub", NS_PUBSUB);
    assert!(pubsub.is_some(), "<pubsub> missing");
    let publish = pubsub.unwrap().get_child("publish", NS_PUBSUB);
    assert!(publish.is_some(), "<publish> missing");
    assert_eq!(publish.unwrap().attr("node"), Some(CONV_SYNC_NODE));
    let item = publish.unwrap().get_child("item", NS_PUBSUB);
    assert!(item.is_some(), "<item> missing");
    assert_eq!(item.unwrap().attr("id"), Some("current"));
    let conversations = item.unwrap().get_child("conversations", "xmpp-start:conversations");
    assert!(conversations.is_some(), "<conversations> missing");
    let children: Vec<_> = conversations.unwrap().children().iter().collect();
    assert_eq!(children.len(), 2);
    assert_eq!(children[0].attr("jid"), Some("alice@server"));
    assert_eq!(children[1].attr("jid"), Some("room@muc.server"));
}

#[test]
fn parse_result_extracts_jids() {
    let mgr = ConversationSyncManager::new();
    let mut convs_el = Element::new("conversations", "xmpp-start:conversations");
    convs_el.push_child(
        Element::new("conversation", "xmpp-start:conversations").with_attr("jid", "alice@server").with_attr("archived", "false"),
    );
    convs_el.push_child(
        Element::new("conversation", "xmpp-start:conversations").with_attr("jid", "room@muc.server").with_attr("archived", "true"),
    );
    let item = Element::new("item", NS_PUBSUB).with_attr("id", "current").with_child(convs_el);
    let items = Element::new("items", NS_PUBSUB).with_attr("node", CONV_SYNC_NODE).with_child(item);
    let pubsub = Element::new("pubsub", NS_PUBSUB).with_child(items);
    let iq = Element::new("iq", NS_CLIENT).with_attr("type", "result").with_child(pubsub);
    let result = mgr.parse_result(&iq);
    assert_eq!(result.len(), 2);
    assert_eq!(result[0].jid, "alice@server");
    assert_eq!(result[1].jid, "room@muc.server");
}

#[test]
fn archived_flag_round_trips() {
    let mgr = ConversationSyncManager::new();
    let original = make_conversations();
    let iq = mgr.build_publish_iq(&original);
    let pubsub = iq.get_child("pubsub", NS_PUBSUB).unwrap();
    let publish = pubsub.get_child("publish", NS_PUBSUB).unwrap();
    let item = publish.get_child("item", NS_PUBSUB).unwrap();
    let conversations_el = item.get_child("conversations", "xmpp-start:conversations").unwrap();
    let result = mgr.parse_result(conversations_el);
    assert_eq!(result.len(), 2);
    assert!(!result[0].archived, "alice should not be archived");
    assert!(result[1].archived, "room should be archived");
}

#[test]
fn build_fetch_iq_correct_node() {
    let mgr = ConversationSyncManager::new();
    let iq = mgr.build_fetch_iq();
    assert_eq!(iq.attr("type"), Some("get"));
    let pubsub = iq.get_child("pubsub", NS_PUBSUB).unwrap();
    let items = pubsub.get_child("items", NS_PUBSUB).unwrap();
    assert_eq!(items.attr("node"), Some(CONV_SYNC_NODE));
}
