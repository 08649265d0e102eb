use rexisce::util::xml::Element;
use rexisce::xmpp::modules::bob::{build_bob_data, build_bob_request, parse_bob_data, BobData, NS_BOB};
use rexisce::xmpp::modules::NS_CLIENT;

fn sample_bob() -> BobData {
    BobData {
        cid: "sha1+aabbcc@bob.xmpp.org".to_string(),
        content_type: "image/png".to_string(),
        data: vec![0x89, 0x50, 0x4e, 0x47, 0x0d, 0x0a, 0x1a, 0x0a],
        max_age: Some(86400),
    }
}

#[test]
fn build_bob_data_has_correct_attrs() {
    let el = build_bob_data(&sample_bob());
    assert_eq!(el.name(), "data");
    assert_eq!(el.ns(), NS_BOB);
    assert_eq!(el.attr("cid"), Some("sha1+aabbcc@bob.xmpp.org"));
    assert_eq!(el.attr("type"), Some("image/png"));
    assert_eq!(el.attr("max-age"), Some("86400"));
}

#[test]
fn parse_bob_data_roundtrip() {
    let original = sample_bob();
    let el = build_bob_data(&original);
    let parsed = parse_bob_data(&el).expect("parse failed");
    assert_eq!(parsed.cid, original.cid);
    assert_eq!(parsed.content_type, original.content_type);
    assert_eq!(parsed.data, original.data);
    assert_eq!(parsed.max_age, original.max_age);
}

#[test]
fn parse_bob_data_no_max_age() {
    let bob = BobData {
        cid: "sha1+aabbcc@bob.xmpp.org".to_string(),
        content_type: "image/jpeg".to_string(),
        data: vec![0xff, 0xd8, 0xff],
        max_age: None,
    };
    let el = build_bob_data(&bob);
    let parsed = parse_bob_data(&el).expect("parse failed");
    assert_eq!(parsed.max_age, None);
    assert_eq!(parsed.data, bob.data);
}

#[test]
fn build_bob_request_has_correct_structure() {
    let el = build_bob_request("sha1+aabbcc@bob.xmpp.org", "user@example.org");
    assert_eq!(el.name(), "iq");
    assert_eq!(el.attr("type"), Some("get"));
    assert_eq!(el.attr("to"), Some("user@example.org"));
    assert!(el.attr("id").is_some());
    let data_el = el.children().iter().find(|c| c.name() == "data").expect("no data child");
    assert_eq!(data_el.ns(), NS_BOB);
    assert_eq!(data_el.attr("cid"), Some("sha1+aabbcc@bob.xmpp.org"));
}

#[test]
fn build_bob_request_unique_ids() {
    let el1 = build_bob_request("cid1@bob.xmpp.org", "a@example.org");
    let el2 = build_bob_request("cid1@bob.xmpp.org", "a@example.org");
    assert_ne!(el1.attr("id"), el2.attr("id"));
}

#[test]
fn parse_bob_data_from_wrapper_element() {
    let bob = sample_bob();
    let data_el = build_bob_data(&bob);
    let iq = Element::new("iq", NS_CLIENT).with_attr("type", "result").with_child(data_el);
    let parsed = parse_bob_data(&iq).expect("parse failed");
    assert_eq!(parsed.cid, bob.cid);
}

#[test]
fn parse_bob_data_decodes_base64_payload() {
    let data_el = Element::new("data", NS_BOB)
        .with_attr("cid", "c@bob.xmpp.org")
        .with_attr("type", "text/plain")
        .with_text("aGk=");
    let parsed = parse_bob_data(&data_el).expect("parse failed");
    assert_eq!(parsed.data, b"hi".to_vec());
    assert_eq!(build_bob_data(&parsed).text(), "aGk=");
}
