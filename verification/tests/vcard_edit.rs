use rexisce::util::xml::Element;
use rexisce::xmpp::modules::vcard_edit::{parse_vcard_fields, VCardEditManager, VCardFields};
use rexisce::xmpp::modules::{NS_CLIENT, NS_VCARD};

fn child<'a>(e: &'a Element, name: &str) -> Option<&'a Element> {
    e.children().iter().find(|c| c.name() == name)
}

fn child_text(e: &Element, name: &str) -> String {
    child(e, name).map(|c| c.text()).unwrap_or_default()
}

#[test]
fn build_get_registers_pending() {
    let mut mgr = VCardEditManager::new();
    let (id, iq) = mgr.build_get();
    assert!(!id.is_empty());
    assert!(mgr.is_get_pending(&id));
    assert_eq!(iq.attr("type"), Some("get"));
    let vcard = child(&iq, "vCard").expect("<vCard> child missing");
    assert_eq!(vcard.ns(), NS_VCARD);
}

#[test]
fn build_set_encodes_all_fields() {
    let mut mgr = VCardEditManager::new();
    let fields = VCardFields {
        nickname: "jdoe".into(),
        full_name: "John Doe".into(),
        organisation: "ACME Corp".into(),
        email: "john@example.com".into(),
        phone: "+1-555-0100".into(),
    };
    let (_id, iq) = mgr.build_set(&fields);
    assert_eq!(iq.attr("type"), Some("set"));
    let vcard = child(&iq, "vCard").expect("<vCard> missing");
    assert_eq!(child(vcard, "NICKNAME").map(|c| c.text()), Some("jdoe".into()));
    assert_eq!(child(vcard, "FN").map(|c| c.text()), Some("John Doe".into()));
    let org = child(vcard, "ORG").expect("<ORG> missing");
    assert_eq!(child_text(org, "ORGNAME"), "ACME Corp");
    let email_el = child(vcard, "EMAIL").expect("<EMAIL> missing");
    assert_eq!(child_text(email_el, "USERID"), "john@example.com");
    let tel = child(vcard, "TEL").expect("<TEL> missing");
    assert_eq!(child_text(tel, "NUMBER"), "+1-555-0100");
}

#[test]
fn on_get_result_parses_fields() {
    let mut mgr = VCardEditManager::new();
    let (id, _) = mgr.build_get();
    let vcard = Element::new("vCard", NS_VCARD)
        .with_child(Element::new("NICKNAME", NS_VCARD).with_text("jdoe"))
        .with_child(Element::new("FN", NS_VCARD).with_text("John Doe"))
        .with_child(Element::new("ORG", NS_VCARD).with_child(Element::new("ORGNAME", NS_VCARD).with_text("ACME")))
        .with_child(Element::new("EMAIL", NS_VCARD).with_child(Element::new("USERID", NS_VCARD).with_text("john@example.com")))
        .with_child(Element::new("TEL", NS_VCARD).with_child(Element::new("NUMBER", NS_VCARD).with_text("+1-555-0100")));
    let iq = Element::new("iq", NS_CLIENT).with_attr("type", "result").with_attr("id", &id).with_child(vcard);
    let result = mgr.on_get_result(&iq).expect("expected VCardFields");
    assert_eq!(result.nickname, "jdoe");
    assert_eq!(result.full_name, "John Doe");
    assert_eq!(result.organisation, "ACME");
    assert_eq!(result.email, "john@example.com");
    assert_eq!(result.phone, "+1-555-0100");
}

#[test]
fn on_get_result_clears_pending_and_ignores_unknown() {
    let mut mgr = VCardEditManager::new();
    let (id, _) = mgr.build_get();
    let bogus = Element::new("iq", NS_CLIENT)
        .with_attr("type", "result")
        .with_attr("id", "not-a-real-id")
        .with_child(Element::new("vCard", NS_VCARD));
    assert!(mgr.on_get_result(&bogus).is_none());
    let real = Element::new("iq", NS_CLIENT).with_attr("type", "result").with_attr("id", &id).with_child(Element::new("vCard", NS_VCARD));
    assert!(mgr.on_get_result(&real).is_some());
    assert!(!mgr.is_get_pending(&id));
}

#[test]
fn on_set_result_matches_pending() {
    let mut mgr = VCardEditManager::new();
    let fields = VCardFields::default();
    let (id, _) = mgr.build_set(&fields);
    let bogus = Element::new("iq", NS_CLIENT).with_attr("type", "result").with_attr("id", "wrong-id");
    assert!(!mgr.on_set_result(&bogus));
    let real = Element::new("iq", NS_CLIENT).with_attr("type", "result").with_attr("id", &id);
    assert!(mgr.on_set_result(&real));
    assert!(!mgr.is_set_pending(&id));
}

#[test]
fn build_set_omits_empty_fields() {
    let mut mgr = VCardEditManager::new();
    let fields = VCardFields { nickname: "nick".into(), ..Default::default() };
    let (_id, iq) = mgr.build_set(&fields);
    let vcard = child(&iq, "vCard").unwrap();
    assert!(child(vcard, "FN").is_none());
    assert!(child(vcard, "ORG").is_none());
    assert!(child(vcard, "EMAIL").is_none());
    assert!(child(vcard, "TEL").is_none());
}

#[test]
fn roundtrip_build_then_parse() {
    let mut mgr = VCardEditManager::new();
    let original = VCardFields {
        nickname: "alice".into(),
        full_name: "Alice Smith".into(),
        organisation: "Corp".into(),
        email: "alice@corp.com".into(),
        phone: "123".into(),
    };
    let (_id, iq) = mgr.build_set(&original);
    let vcard_el = child(&iq, "vCard").unwrap();
    let parsed = parse_vcard_fields(vcard_el);
    assert_eq!(parsed, original);
}
