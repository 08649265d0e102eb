use rexisce::util::xml::Element;
use rexisce::xmpp::modules::registration::{RegistrationManager, NS_REGISTER};
use rexisce::xmpp::modules::NS_CLIENT;

#[test]
fn test_build_get_form() {
    let el = RegistrationManager::build_get_form("reg1");
    assert_eq!(el.name(), "iq");
    assert_eq!(el.attr("type"), Some("get"));
    let query = el.get_child("query", NS_REGISTER).unwrap();
    assert_eq!(query.name(), "query");
}

#[test]
fn test_build_registration_submit() {
    let el = RegistrationManager::build_registration_submit("reg2", "alice", "secret", Some("alice@example.com"));
    let query = el.get_child("query", NS_REGISTER).unwrap();
    assert_eq!(query.get_child("username", NS_REGISTER).unwrap().text(), "alice");
    assert_eq!(query.get_child("password", NS_REGISTER).unwrap().text(), "secret");
    assert_eq!(query.get_child("email", NS_REGISTER).unwrap().text(), "alice@example.com");
}

#[test]
fn registration_submit_without_email_has_no_email() {
    let el = RegistrationManager::build_registration_submit("reg3", "bob", "pw", None);
    let query = el.get_child("query", NS_REGISTER).unwrap();
    assert!(query.get_child("email", NS_REGISTER).is_none());
    assert_eq!(el.attr("type"), Some("set"));
    assert_eq!(el.attr("id"), Some("reg3"));
}

#[test]
fn parse_registration_query_finds_query() {
    let iq = Element::new("iq", NS_CLIENT)
        .with_attr("type", "result")
        .with_child(Element::new("query", NS_REGISTER).with_child(Element::new("username", NS_REGISTER)));
    let q = RegistrationManager::parse_registration_query(&iq).expect("query");
    assert_eq!(q.name(), "query");
    assert_eq!(q.children().len(), 1);
    let other = Element::new("iq", NS_CLIENT).with_attr("type", "result");
    assert!(RegistrationManager::parse_registration_query(&other).is_none());
}
