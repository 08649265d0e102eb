use rexisce::util::xml::Element;
use rexisce::xmpp::modules::stickers::{build_sticker_message, parse_sticker_pack, Sticker, NS_STICKERS};

fn sample_sticker() -> Sticker {
    Sticker {
        id: "sticker-1".to_string(),
        desc: "A happy face".to_string(),
        content_type: "image/png".to_string(),
        cid: "sha1+aabbccdd@bob.xmpp.org".to_string(),
    }
}

fn sample_pack_element() -> Element {
    let name_el = Element::new("name", NS_STICKERS).with_text("Test Pack");
    let media_type_el = Element::new("media-type", NS_STICKERS).with_text("image/png");
    let uri_el = Element::new("uri", NS_STICKERS).with_text("cid:sha1+aabbccdd@bob.xmpp.org");
    let file_el = Element::new("file", NS_STICKERS).with_child(media_type_el).with_child(uri_el);
    let desc_el = Element::new("desc", NS_STICKERS).with_text("A happy face");
    let item_el = Element::new("item", NS_STICKERS).with_attr("id", "sticker-1").with_child(desc_el).with_child(file_el);
    Element::new("pack", NS_STICKERS).with_attr("id", "pack-abc").with_child(name_el).with_child(item_el)
}

fn child<'a>(e: &'a Element, name: &str) -> &'a Element {
    e.children().iter().find(|c| c.name() == name).expect("missing child")
}

#[test]
fn parse_sticker_pack_extracts_name_and_id() {
    let pack = parse_sticker_pack(&sample_pack_element()).expect("parse failed");
    assert_eq!(pack.id, "pack-abc");
    assert_eq!(pack.name, "Test Pack");
}

#[test]
fn parse_sticker_pack_extracts_stickers() {
    let pack = parse_sticker_pack(&sample_pack_element()).expect("parse failed");
    assert_eq!(pack.stickers.len(), 1);
    let s = &pack.stickers[0];
    assert_eq!(s.id, "sticker-1");
    assert_eq!(s.desc, "A happy face");
    assert_eq!(s.content_type, "image/png");
    assert_eq!(s.cid, "sha1+aabbccdd@bob.xmpp.org");
}

#[test]
fn parse_sticker_pack_wrong_element_returns_none() {
    assert!(parse_sticker_pack(&Element::new("not-a-pack", NS_STICKERS)).is_none());
}

#[test]
fn parse_sticker_pack_wrong_ns_returns_none() {
    assert!(parse_sticker_pack(&Element::new("pack", "wrong:ns")).is_none());
}

#[test]
fn build_sticker_message_has_correct_structure() {
    let el = build_sticker_message("friend@example.org", "pack-abc", &sample_sticker());
    assert_eq!(el.name(), "message");
    assert_eq!(el.attr("type"), Some("chat"));
    assert_eq!(el.attr("to"), Some("friend@example.org"));
    assert!(el.attr("id").is_some());
    let sticker_el = child(&el, "sticker");
    assert_eq!(sticker_el.ns(), NS_STICKERS);
    assert_eq!(sticker_el.attr("pack"), Some("pack-abc"));
    assert_eq!(sticker_el.attr("id"), Some("sticker-1"));
}

#[test]
fn build_sticker_message_contains_file_with_cid() {
    let el = build_sticker_message("friend@example.org", "pack-abc", &sample_sticker());
    let uri_el = child(child(child(&el, "sticker"), "file"), "uri");
    assert_eq!(uri_el.text(), "cid:sha1+aabbccdd@bob.xmpp.org");
}

#[test]
fn build_sticker_message_unique_ids() {
    let sticker = sample_sticker();
    let el1 = build_sticker_message("a@example.org", "pack-1", &sticker);
    let el2 = build_sticker_message("a@example.org", "pack-1", &sticker);
    assert_ne!(el1.attr("id"), el2.attr("id"));
}
