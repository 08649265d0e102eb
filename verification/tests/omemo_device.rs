use rexisce::util::xml::Element;
use rexisce::xmpp::modules::omemo::device::{DeviceManager, NS_OMEMO_V2, NS_PUBSUB_EVENT, OMEMO_DEVICES_NODE};
use rexisce::xmpp::modules::{NS_CLIENT, NS_PUBSUB};

fn make_devices_element(ids: &[u32]) -> Element {
    let mut el = Element::new("devices", NS_OMEMO_V2);
    for &id in ids {
        el.push_child(Element::new("device", NS_OMEMO_V2).with_attr("id", id.to_string().as_str()));
    }
    el
}

fn items_node(iq: &Element) -> String {
    iq.get_child("pubsub", NS_PUBSUB).unwrap().get_child("items", NS_PUBSUB).unwrap().attr("node").unwrap().to_string()
}

#[test]
fn parse_device_list_direct() {
    let el = make_devices_element(&[111, 222, 333]);
    let ids = DeviceManager::parse_device_list(&el);
    assert_eq!(ids, vec![111, 222, 333]);
}

#[test]
fn parse_device_list_nested_in_pubsub() {
    let devices_el = make_devices_element(&[42, 99]);
    let item_el = Element::new("item", NS_PUBSUB).with_attr("id", "current").with_child(devices_el);
    let items_el = Element::new("items", NS_PUBSUB_EVENT).with_attr("node", OMEMO_DEVICES_NODE).with_child(item_el);
    let event_el = Element::new("event", NS_PUBSUB_EVENT).with_child(items_el);
    let message_el = Element::new("message", NS_CLIENT).with_attr("from", "bob@example.com").with_child(event_el);
    let ids = DeviceManager::parse_device_list(&message_el);
    assert_eq!(ids, vec![42, 99]);
}

#[test]
fn parse_device_list_empty() {
    let el = make_devices_element(&[]);
    let ids = DeviceManager::parse_device_list(&el);
    assert!(ids.is_empty());
}

#[test]
fn parse_device_list_ignores_invalid_ids() {
    let el = Element::new("devices", NS_OMEMO_V2)
        .with_child(Element::new("device", NS_OMEMO_V2).with_attr("id", "123"))
        .with_child(Element::new("device", NS_OMEMO_V2))
        .with_child(Element::new("device", NS_OMEMO_V2).with_attr("id", "notanumber"));
    let ids = DeviceManager::parse_device_list(&el);
    assert_eq!(ids, vec![123]);
}

#[test]
fn build_device_list_publish_roundtrip() {
    let mgr = DeviceManager::new();
    let stanza = mgr.build_device_list_publish(&[11, 22, 33]);
    assert_eq!(stanza.name(), "iq");
    assert_eq!(stanza.attr("type"), Some("set"));
    let ids = DeviceManager::parse_device_list(&stanza);
    assert_eq!(ids, vec![11, 22, 33]);
}

#[test]
fn build_device_list_fetch_has_correct_node() {
    let mgr = DeviceManager::new();
    let (_id, iq) = mgr.build_device_list_fetch("bob@example.com");
    assert_eq!(iq.attr("to"), Some("bob@example.com"));
    assert_eq!(iq.attr("type"), Some("get"));
    assert!(items_node(&iq).contains(OMEMO_DEVICES_NODE));
}

#[test]
fn build_bundle_fetch_has_correct_node() {
    let mgr = DeviceManager::new();
    let (_id, iq) = mgr.build_bundle_fetch("bob@example.com", 42);
    assert!(items_node(&iq).contains("urn:xmpp:omemo:2:bundles/42"));
}

fn event_message(node: &str) -> Element {
    let items_el = Element::new("items", NS_PUBSUB_EVENT).with_attr("node", node);
    let event_el = Element::new("event", NS_PUBSUB_EVENT).with_child(items_el);
    Element::new("message", NS_CLIENT).with_attr("from", "alice@example.com").with_child(event_el)
}

#[test]
fn is_device_list_event_detects_push() {
    let result = DeviceManager::is_device_list_event(&event_message(OMEMO_DEVICES_NODE));
    assert_eq!(result, Some("alice@example.com".to_string()));
}

#[test]
fn is_device_list_event_ignores_other_nodes() {
    assert!(DeviceManager::is_device_list_event(&event_message("some:other:node")).is_none());
}

#[test]
fn own_device_id_defaults_to_zero() {
    let mut mgr = DeviceManager::new();
    assert_eq!(mgr.own_device_id(), 0);
    mgr.set_own_device_id(7);
    assert_eq!(mgr.own_device_id(), 7);
}
