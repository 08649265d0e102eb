use rexisce::util::xml::Element;
use rexisce::xmpp::modules::disco::{DiscoIdentity, DiscoManager, NS_CAPS, NS_DISCO_INFO, NS_DISCO_ITEMS};
use rexisce::xmpp::modules::NS_CLIENT;

fn make_manager() -> DiscoManager {
    DiscoManager::new(
        "https://example.org/xmpp-start",
        &[DiscoIdentity { category: "client".to_string(), kind: "pc".to_string(), name: "xmpp-start".to_string() }],
        &["urn:xmpp:mam:2", "urn:xmpp:carbons:2"],
    )
}

#[test]
fn new_computes_ver_hash() {
    let mgr = make_manager();
    assert!(!mgr.caps().ver.is_empty());
    assert!(mgr.caps().ver.chars().all(|c| c.is_alphanumeric() || c == '+' || c == '/' || c == '='));
    assert_eq!(mgr.caps().ver.len(), 28);
}

#[test]
fn ver_hash_ignores_feature_order() {
    let a = make_manager();
    let b = DiscoManager::new(
        "https://example.org/xmpp-start",
        &[DiscoIdentity { category: "client".to_string(), kind: "pc".to_string(), name: "xmpp-start".to_string() }],
        &["urn:xmpp:carbons:2", "urn:xmpp:mam:2"],
    );
    assert_eq!(a.caps().ver, b.caps().ver);
}

#[test]
fn ver_hash_of_known_input() {
    // XEP-0115 section 5.2 example: "client/pc//Exodus 0.9.1<" followed by its features.
    let mgr = DiscoManager::new(
        "http://code.google.com/p/exodus",
        &[DiscoIdentity { category: "client".to_string(), kind: "pc".to_string(), name: "Exodus 0.9.1".to_string() }],
        &[
            "http://jabber.org/protocol/caps",
            "http://jabber.org/protocol/disco#info",
            "http://jabber.org/protocol/disco#items",
            "http://jabber.org/protocol/muc",
        ],
    );
    assert_eq!(mgr.caps().ver, "QgayPKawpkPSDYmwT/WM94uAlu0=");
    assert_eq!(mgr.caps().hash, "sha-1");
}

#[test]
fn build_info_request_registers_pending() {
    let mut mgr = make_manager();
    let (id, el) = mgr.build_info_request("conference.example.org");
    assert!(!id.is_empty());
    assert_eq!(el.attr("type"), Some("get"));
    assert_eq!(el.attr("to"), Some("conference.example.org"));
    assert_eq!(el.attr("id"), Some(id.as_str()));
    let iq = Element::new("iq", NS_CLIENT)
        .with_attr("type", "result")
        .with_attr("id", &id)
        .with_child(Element::new("query", NS_DISCO_INFO));
    assert!(mgr.on_info_result(&iq).is_some(), "the request was pending");
}

#[test]
fn build_caps_element_has_correct_ns() {
    let mgr = make_manager();
    let caps = mgr.build_caps_element();
    assert_eq!(caps.ns(), NS_CAPS);
    assert_eq!(caps.name(), "c");
    assert_eq!(caps.attr("hash"), Some("sha-1"));
    assert_eq!(caps.attr("node"), Some("https://example.org/xmpp-start"));
    assert!(caps.attr("ver").is_some());
}

fn info_result(id: &str, query: Element) -> Element {
    Element::new("iq", NS_CLIENT).with_attr("type", "result").with_attr("id", id).with_child(query)
}

#[test]
fn on_info_result_parses_features() {
    let mut mgr = make_manager();
    let (id, _) = mgr.build_info_request("server.example.org");
    let query = Element::new("query", NS_DISCO_INFO)
        .with_child(
            Element::new("identity", NS_DISCO_INFO).with_attr("category", "server").with_attr("type", "im").with_attr("name", "Prosody"),
        )
        .with_child(Element::new("feature", NS_DISCO_INFO).with_attr("var", "urn:xmpp:mam:2"))
        .with_child(Element::new("feature", NS_DISCO_INFO).with_attr("var", "urn:xmpp:carbons:2"));
    let result = mgr.on_info_result(&info_result(&id, query));
    assert!(result.is_some());
    let (jid, info) = result.unwrap();
    assert_eq!(jid, "server.example.org");
    assert!(info.features.contains(&"urn:xmpp:mam:2".to_string()));
    assert!(info.features.contains(&"urn:xmpp:carbons:2".to_string()));
    assert_eq!(info.identities.len(), 1);
    assert_eq!(info.identities[0].category, "server");
    assert_eq!(info.identities[0].kind, "im");
}

#[test]
fn on_info_result_caches_result() {
    let mut mgr = make_manager();
    let (id, _) = mgr.build_info_request("server.example.org");
    let query = Element::new("query", NS_DISCO_INFO).with_child(Element::new("feature", NS_DISCO_INFO).with_attr("var", "urn:xmpp:ping"));
    mgr.on_info_result(&info_result(&id, query.duplicate()));
    assert!(mgr.get_cached("server.example.org").is_some());
    assert!(mgr.on_info_result(&info_result(&id, query)).is_none(), "pending entry must have been consumed");
}

#[test]
fn supports_returns_true_for_cached_feature() {
    let mut mgr = make_manager();
    let (id, _) = mgr.build_info_request("server.example.org");
    let query = Element::new("query", NS_DISCO_INFO).with_child(Element::new("feature", NS_DISCO_INFO).with_attr("var", "urn:xmpp:ping"));
    mgr.on_info_result(&info_result(&id, query));
    assert!(mgr.supports("server.example.org", "urn:xmpp:ping"));
    assert!(!mgr.supports("server.example.org", "urn:xmpp:other"));
}

#[test]
fn supports_returns_false_for_unknown_jid() {
    let mgr = make_manager();
    assert!(!mgr.supports("nobody@example.org", "urn:xmpp:ping"));
}

#[test]
fn on_items_result_parses_items() {
    let mut mgr = make_manager();
    let (id, _) = mgr.build_items_request("example.org");
    let query = Element::new("query", NS_DISCO_ITEMS)
        .with_child(Element::new("item", NS_DISCO_ITEMS).with_attr("jid", "conference.example.org").with_attr("name", "Chatrooms"))
        .with_child(
            Element::new("item", NS_DISCO_ITEMS)
                .with_attr("jid", "upload.example.org")
                .with_attr("name", "File Upload")
                .with_attr("node", "upload"),
        );
    let iq = info_result(&id, query);
    let result = mgr.on_items_result(&iq);
    assert!(result.is_some());
    let (jid, items) = result.unwrap();
    assert_eq!(jid, "example.org");
    assert_eq!(items.len(), 2);
    assert_eq!(items[0].jid, "conference.example.org");
    assert_eq!(items[0].name, Some("Chatrooms".to_string()));
    assert_eq!(items[0].node, None);
    assert_eq!(items[1].jid, "upload.example.org");
    assert_eq!(items[1].node, Some("upload".to_string()));
    assert!(mgr.on_items_result(&iq).is_none(), "pending entry consumed");
}

#[test]
fn info_result_of_wrong_type_is_ignored_and_stays_pending() {
    let mut mgr = make_manager();
    let (id, _) = mgr.build_info_request("a.example.org");
    let err = Element::new("iq", NS_CLIENT).with_attr("type", "error").with_attr("id", &id).with_child(Element::new("query", NS_DISCO_INFO));
    assert!(mgr.on_info_result(&err).is_none());
    let ok = info_result(&id, Element::new("query", NS_DISCO_INFO));
    assert!(mgr.on_info_result(&ok).is_some());
}

#[test]
fn ver_hash_ignores_identity_order() {
    let pc = DiscoIdentity { category: "client".to_string(), kind: "pc".to_string(), name: "a".to_string() };
    let bot = DiscoIdentity { category: "client".to_string(), kind: "bot".to_string(), name: "b".to_string() };
    let a = DiscoManager::new("n", &[pc.clone(), bot.clone()], &["urn:x:1", "urn:x:2", "urn:x:3"]);
    let b = DiscoManager::new("n", &[bot, pc], &["urn:x:3", "urn:x:1", "urn:x:2"]);
    assert_eq!(a.caps().ver, b.caps().ver);
    assert_eq!(a.build_caps_element().attr("ver"), b.build_caps_element().attr("ver"));
    assert_eq!(a.caps().ver.len(), 28);
}
