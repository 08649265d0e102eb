use base64::Engine;
use rexisce::util::xml::Element;
use rexisce::xmpp::modules::avatar::{AvatarInfo, AvatarManager, NS_AVATAR_DATA, NS_AVATAR_META, NS_PUBSUB_EVENT};
use rexisce::xmpp::modules::{NS_CLIENT, NS_PUBSUB, NS_VCARD};

fn b64(raw: &[u8]) -> String {
    base64::engine::general_purpose::STANDARD.encode(raw)
}

fn metadata_event(from: &str, sha1: &str, mime: &str) -> Element {
    let info = Element::new("info", NS_AVATAR_META).with_attr("bytes", "1234").with_attr("id", sha1).with_attr("type", mime);
    let metadata = Element::new("metadata", NS_AVATAR_META).with_child(info);
    let item = Element::new("item", NS_PUBSUB_EVENT).with_attr("id", sha1).with_child(metadata);
    let items = Element::new("items", NS_PUBSUB_EVENT).with_attr("node", NS_AVATAR_META).with_child(item);
    let event = Element::new("event", NS_PUBSUB_EVENT).with_child(items);
    Element::new("message", NS_CLIENT).with_attr("from", from).with_child(event)
}

fn data_result(from: &str, sha1: &str, raw: &[u8]) -> Element {
    let encoded = b64(raw);
    let data_el = Element::new("data", NS_AVATAR_DATA).with_text(encoded.as_str());
    let item = Element::new("item", NS_PUBSUB).with_attr("id", sha1).with_child(data_el);
    let items = Element::new("items", NS_PUBSUB).with_attr("node", NS_AVATAR_DATA).with_child(item);
    let pubsub = Element::new("pubsub", NS_PUBSUB).with_child(items);
    Element::new("iq", NS_CLIENT).with_attr("type", "result").with_attr("from", from).with_child(pubsub)
}

fn vcard_result(iq_id: &str, mime: &str, raw: &[u8]) -> Element {
    let encoded = b64(raw);
    let type_el = Element::new("TYPE", NS_VCARD).with_text(mime);
    let binval = Element::new("BINVAL", NS_VCARD).with_text(encoded.as_str());
    let photo = Element::new("PHOTO", NS_VCARD).with_child(type_el).with_child(binval);
    let vcard = Element::new("vCard", NS_VCARD).with_child(photo);
    Element::new("iq", NS_CLIENT).with_attr("type", "result").with_attr("id", iq_id).with_child(vcard)
}

fn vcard_result_no_photo(iq_id: &str) -> Element {
    let vcard = Element::new("vCard", NS_VCARD);
    Element::new("iq", NS_CLIENT).with_attr("type", "result").with_attr("id", iq_id).with_child(vcard)
}

#[test]
fn on_avatar_metadata_event_extracts_sha1_and_mime() {
    let mut mgr = AvatarManager::new();
    let from = "alice@example.com";
    let sha1 = "aabbccdd1122334455667788";
    let mime = "image/jpeg";
    let el = metadata_event(from, sha1, mime);
    let result = mgr.on_avatar_metadata_event(from, &el);
    assert!(result.is_some(), "should return Some(AvatarInfo)");
    let info = result.unwrap();
    assert_eq!(info.jid, from);
    assert_eq!(info.sha1, sha1);
    assert_eq!(info.mime_type, mime);
    assert!(info.data.is_empty(), "data should be empty until fetched");
}

#[test]
fn build_avatar_data_request_has_correct_node() {
    let mgr = AvatarManager::new();
    let jid = "bob@example.com";
    let sha1 = "deadbeef";
    let iq = mgr.build_avatar_data_request(jid, sha1);
    assert_eq!(iq.attr("type"), Some("get"));
    assert_eq!(iq.attr("to"), Some(jid));
    let pubsub = iq.children().iter().find(|c| c.name() == "pubsub").expect("<pubsub> missing");
    let items = pubsub.children().iter().find(|c| c.name() == "items").expect("<items> missing");
    assert_eq!(items.attr("node"), Some(NS_AVATAR_DATA), "items node must be NS_AVATAR_DATA");
    let item = items.children().iter().find(|c| c.name() == "item").expect("<item> missing");
    assert_eq!(item.attr("id"), Some(sha1));
}

#[test]
fn on_avatar_data_result_decodes_base64() {
    let mut mgr = AvatarManager::new();
    let from = "carol@example.com";
    let sha1 = "cafebabe";
    let raw = b"\x89PNG\r\n\x1a\n";
    let el = data_result(from, sha1, raw);
    let result = mgr.on_avatar_data_result(from, &el);
    assert!(result.is_some());
    let info = result.unwrap();
    assert_eq!(info.jid, from);
    assert_eq!(info.sha1, sha1);
    assert_eq!(info.data, raw);
}

#[test]
fn build_vcard_request_registers_pending() {
    let mut mgr = AvatarManager::new();
    let jid = "dave@example.com";
    let (id, iq) = mgr.build_vcard_request(jid);
    assert_eq!(iq.attr("type"), Some("get"));
    assert_eq!(iq.attr("to"), Some(jid));
    assert_eq!(iq.attr("id"), Some(id.as_str()));
    let vcard = iq.children().iter().find(|c| c.name() == "vCard" && c.ns() == NS_VCARD).expect("<vCard> missing");
    let _ = vcard;
    assert!(mgr.pending_vcard_jid(&id).is_some(), "pending_vcards must contain the generated id");
    assert_eq!(mgr.pending_vcard_jid(&id), Some(jid));
}

#[test]
fn on_vcard_result_extracts_photo() {
    let mut mgr = AvatarManager::new();
    let jid = "eve@example.com";
    let raw = b"fake-image-data";
    let (id, _) = mgr.build_vcard_request(jid);
    let el = vcard_result(&id, "image/png", raw);
    let result = mgr.on_vcard_result(&el);
    assert!(result.is_some());
    let info = result.unwrap();
    assert_eq!(info.jid, jid);
    assert_eq!(info.mime_type, "image/png");
    assert_eq!(info.data, raw);
}

#[test]
fn cache_get_returns_stored_avatar() {
    let mut mgr = AvatarManager::new();
    let avatar = AvatarInfo {
        jid: "frank@example.com".to_string(),
        sha1: "abc123".to_string(),
        mime_type: "image/webp".to_string(),
        data: vec![1, 2, 3],
    };
    mgr.set(avatar.clone());
    let retrieved = mgr.get("frank@example.com");
    assert!(retrieved.is_some());
    assert_eq!(retrieved.unwrap(), &avatar);
}

#[test]
fn set_overwrites_existing() {
    let mut mgr = AvatarManager::new();
    let jid = "grace@example.com";
    mgr.set(AvatarInfo { jid: jid.to_string(), sha1: "old-sha1".to_string(), mime_type: "image/png".to_string(), data: vec![0xFF] });
    mgr.set(AvatarInfo {
        jid: jid.to_string(),
        sha1: "new-sha1".to_string(),
        mime_type: "image/jpeg".to_string(),
        data: vec![0xAB, 0xCD],
    });
    let info = mgr.get(jid).expect("avatar should be cached");
    assert_eq!(info.sha1, "new-sha1");
    assert_eq!(info.mime_type, "image/jpeg");
    assert_eq!(info.data, vec![0xAB, 0xCD]);
}

#[test]
fn on_vcard_result_no_photo_returns_none() {
    let mut mgr = AvatarManager::new();
    let jid = "henry@example.com";
    let (id, _) = mgr.build_vcard_request(jid);
    let el = vcard_result_no_photo(&id);
    let result = mgr.on_vcard_result(&el);
    assert!(result.is_none(), "should return None when no PHOTO present");
    assert!(mgr.pending_vcard_jid(&id).is_none(), "pending entry should be removed even on failure");
}

#[test]
fn data_result_keeps_cached_mime_and_ignores_white_space() {
    let mut mgr = AvatarManager::new();
    let from = "ivan@example.com";
    mgr.on_avatar_metadata_event(from, &metadata_event(from, "h1", "image/gif"));
    let encoded = b64(b"abcdef");
    let spaced = format!("{}\n {}", &encoded[..4], &encoded[4..]);
    let data_el = Element::new("data", NS_AVATAR_DATA).with_text(spaced.as_str());
    let item = Element::new("item", NS_PUBSUB).with_child(data_el);
    let items = Element::new("items", NS_PUBSUB).with_attr("node", NS_AVATAR_DATA).with_child(item);
    let el = Element::new("iq", NS_CLIENT).with_child(Element::new("pubsub", NS_PUBSUB).with_child(items));
    let info = mgr.on_avatar_data_result(from, &el).expect("decodes");
    assert_eq!(info.mime_type, "image/gif");
    assert_eq!(info.sha1, "");
    assert_eq!(info.data, b"abcdef");
}

#[test]
fn data_result_with_invalid_base64_is_none() {
    let mut mgr = AvatarManager::new();
    let data_el = Element::new("data", NS_AVATAR_DATA).with_text("!!!not base64!!!");
    let item = Element::new("item", NS_PUBSUB).with_attr("id", "x").with_child(data_el);
    let items = Element::new("items", NS_PUBSUB).with_attr("node", NS_AVATAR_DATA).with_child(item);
    let el = Element::new("iq", NS_CLIENT).with_child(Element::new("pubsub", NS_PUBSUB).with_child(items));
    assert!(mgr.on_avatar_data_result("z@example.com", &el).is_none());
    assert!(mgr.get("z@example.com").is_none());
}

#[test]
fn data_publish_carries_base64_payload() {
    let mgr = AvatarManager::new();
    let iq = mgr.build_avatar_data_publish("pubsub.example.com", "h", b"hi", "image/png");
    let pubsub = iq.get_child("pubsub", NS_PUBSUB).unwrap();
    let publish = pubsub.get_child("publish", NS_PUBSUB).unwrap();
    assert_eq!(publish.attr("node"), Some(NS_AVATAR_DATA));
    let item = publish.get_child("item", NS_PUBSUB).unwrap();
    assert_eq!(item.attr("id"), Some("h"));
    assert_eq!(item.get_child("data", NS_AVATAR_DATA).unwrap().text(), "aGk=");
}

#[test]
fn metadata_publish_states_size() {
    let mgr = AvatarManager::new();
    let iq = mgr.build_avatar_metadata_publish("pubsub.example.com", "h", 4096, "image/png");
    let info = iq
        .get_child("pubsub", NS_PUBSUB).unwrap()
        .get_child("publish", NS_PUBSUB).unwrap()
        .get_child("item", NS_PUBSUB).unwrap()
        .get_child("metadata", NS_AVATAR_META).unwrap()
        .get_child("info", NS_AVATAR_META).unwrap();
    assert_eq!(info.attr("bytes"), Some("4096"));
    assert_eq!(info.attr("type"), Some("image/png"));
}
