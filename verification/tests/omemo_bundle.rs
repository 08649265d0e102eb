use base64::Engine;
use rexisce::util::xml::Element;
use rexisce::xmpp::modules::omemo::bundle::{build_bundle_publish, parse_bundle, OmemoBundle, OmemoManager};
use rexisce::xmpp::modules::omemo::{NS_OMEMO, NS_OMEMO_BUNDLES};
use rexisce::xmpp::modules::NS_PUBSUB;

fn make_bundle() -> OmemoBundle {
    OmemoBundle {
        identity_key: vec![0x01; 32],
        signed_pre_key: vec![0x02; 32],
        signed_pre_key_id: 7,
        signed_pre_key_signature: vec![0x03; 64],
        pre_keys: vec![(1, vec![0x10; 32]), (2, vec![0x20; 32]), (3, vec![0x30; 32])],
    }
}

fn b64(raw: &[u8]) -> String {
    base64::engine::general_purpose::STANDARD.encode(raw)
}

#[test]
fn build_parse_bundle_roundtrip() {
    let original = make_bundle();
    let iq = build_bundle_publish(12345, &original);
    assert_eq!(iq.attr("type"), Some("set"));
    let parsed = parse_bundle(&iq).expect("parse_bundle must succeed on a freshly built IQ");
    assert_eq!(parsed, original);
}

#[test]
fn parse_bundle_from_bare_element() {
    let original = make_bundle();
    let iq = build_bundle_publish(99, &original);
    let bundle_el = iq.find_descendant("bundle", NS_OMEMO).expect("must find <bundle>");
    let parsed = parse_bundle(bundle_el).expect("must parse bare <bundle>");
    assert_eq!(parsed, original);
}

#[test]
fn build_bundle_publish_node_contains_device_id() {
    let bundle = make_bundle();
    let iq = build_bundle_publish(42, &bundle);
    let publish = iq.get_child("pubsub", NS_PUBSUB).unwrap().get_child("publish", NS_PUBSUB).unwrap();
    let node = publish.attr("node").unwrap();
    assert!(node.contains("42"), "publish node must contain device_id");
    assert!(node.contains(NS_OMEMO_BUNDLES));
    assert_eq!(node, format!("{}:42", NS_OMEMO_BUNDLES));
}

#[test]
fn parse_bundle_returns_none_on_missing_identity_key() {
    let bundle_el = Element::new("bundle", NS_OMEMO)
        .with_child(
            Element::new("signedPreKeyPublic", NS_OMEMO)
                .with_attr("signedPreKeyId", "1")
                .with_text(b64(b"12345678901234567890123456789012").as_str()),
        )
        .with_child(Element::new("signedPreKeySignature", NS_OMEMO).with_text(b64(b"sig_bytes_64_bytes_padded_x_x_x_x").as_str()))
        .with_child(Element::new("prekeys", NS_OMEMO));
    assert!(parse_bundle(&bundle_el).is_none());
}

#[test]
fn parse_bundle_pre_key_count() {
    let iq = build_bundle_publish(1, &make_bundle());
    let parsed = parse_bundle(&iq).unwrap();
    assert_eq!(parsed.pre_keys.len(), 3);
}

#[test]
fn parse_bundle_signed_prekey_id_preserved() {
    let iq = build_bundle_publish(1, &make_bundle());
    let parsed = parse_bundle(&iq).unwrap();
    assert_eq!(parsed.signed_pre_key_id, 7);
}

#[test]
fn parse_bundle_pre_key_ids_preserved() {
    let iq = build_bundle_publish(1, &make_bundle());
    let parsed = parse_bundle(&iq).unwrap();
    let ids: Vec<u32> = parsed.pre_keys.iter().map(|(id, _)| *id).collect();
    assert_eq!(ids, vec![1, 2, 3]);
}

#[test]
fn parse_bundle_empty_prekeys_returns_some() {
    let bundle = OmemoBundle {
        identity_key: vec![0xAA; 32],
        signed_pre_key: vec![0xBB; 32],
        signed_pre_key_id: 1,
        signed_pre_key_signature: vec![0xCC; 64],
        pre_keys: vec![],
    };
    let iq = build_bundle_publish(1, &bundle);
    let parsed = parse_bundle(&iq).unwrap();
    assert!(parsed.pre_keys.is_empty());
}

#[test]
fn parse_bundle_skips_bad_pre_keys_and_trims_text() {
    let bundle_el = Element::new("bundle", NS_OMEMO)
        .with_child(Element::new("identityKey", NS_OMEMO).with_text(format!("  {}\n", b64(b"ik")).as_str()))
        .with_child(Element::new("signedPreKeyPublic", NS_OMEMO).with_attr("signedPreKeyId", "9").with_text(b64(b"spk").as_str()))
        .with_child(Element::new("signedPreKeySignature", NS_OMEMO).with_text(b64(b"sig").as_str()))
        .with_child(
            Element::new("prekeys", NS_OMEMO)
                .with_child(Element::new("preKeyPublic", NS_OMEMO).with_attr("preKeyId", "x").with_text(b64(b"a").as_str()))
                .with_child(Element::new("preKeyPublic", NS_OMEMO).with_attr("preKeyId", "4").with_text("!!"))
                .with_child(Element::new("preKeyPublic", NS_OMEMO).with_attr("preKeyId", "5").with_text(b64(b"k5").as_str())),
        );
    let parsed = parse_bundle(&bundle_el).unwrap();
    assert_eq!(parsed.identity_key, b"ik");
    assert_eq!(parsed.signed_pre_key_id, 9);
    assert_eq!(parsed.pre_keys, vec![(5, b"k5".to_vec())]);
}

#[test]
fn track_and_take_device_list_fetch() {
    let mut mgr = OmemoManager::new();
    mgr.track_device_list_fetch("iq-123".to_string(), "bob@example.com".to_string());
    let jid = mgr.take_device_list_fetch("iq-123");
    assert_eq!(jid, Some("bob@example.com".to_string()));
    let jid2 = mgr.take_device_list_fetch("iq-123");
    assert!(jid2.is_none());
}

#[test]
fn track_bundle_fetch_roundtrip() {
    let mut mgr = OmemoManager::new();
    mgr.track_bundle_fetch("iq-abc".to_string(), "alice@example.com".to_string(), 42);
    let entry = mgr.take_bundle_fetch("iq-abc");
    assert_eq!(entry, Some(("alice@example.com".to_string(), 42)));
    assert!(mgr.take_bundle_fetch("iq-abc").is_none());
}

#[test]
fn manager_device_id_starts_at_zero() {
    let mut mgr = OmemoManager::new();
    assert_eq!(mgr.device_mgr().own_device_id(), 0);
    mgr.set_own_device_id(31337);
    assert_eq!(mgr.device_mgr().own_device_id(), 31337);
}
