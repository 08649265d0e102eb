use rexisce::util::xml::Element;
use rexisce::xmpp::modules::account::{AccountIqKind, AccountManager};
use rexisce::xmpp::modules::registration::NS_REGISTER;
use rexisce::xmpp::modules::NS_CLIENT;

fn child<'a>(e: &'a Element, name: &str) -> &'a Element {
    e.children().iter().find(|c| c.name() == name).expect("missing child")
}

#[test]
fn change_password_has_correct_ns() {
    let mut mgr = AccountManager::new();
    let (id, iq) = mgr.build_change_password_iq("alice", "s3cr3t!");
    assert!(!id.is_empty());
    assert_eq!(iq.attr("type"), Some("set"));
    assert_eq!(iq.attr("id"), Some(id.as_str()));
    let query = child(&iq, "query");
    assert_eq!(query.ns(), NS_REGISTER);
    assert_eq!(child(query, "username").text(), "alice");
    assert_eq!(child(query, "password").text(), "s3cr3t!");
}

#[test]
fn delete_account_has_remove_element() {
    let mut mgr = AccountManager::new();
    let (id, iq) = mgr.build_delete_account_iq();
    assert!(!id.is_empty());
    assert_eq!(iq.attr("type"), Some("set"));
    let query = child(&iq, "query");
    assert_eq!(query.ns(), NS_REGISTER);
    assert_eq!(child(query, "remove").ns(), NS_REGISTER);
}

#[test]
fn on_iq_result_matches_change_password() {
    let mut mgr = AccountManager::new();
    let (id, _iq) = mgr.build_change_password_iq("alice", "newpass");
    let result_el = Element::new("iq", NS_CLIENT).with_attr("type", "result").with_attr("id", &id);
    let result = mgr.on_iq_result(&result_el).expect("expected a result");
    assert_eq!(result.kind, AccountIqKind::ChangePassword);
    assert!(result.success);
    assert!(mgr.on_iq_result(&result_el).is_none());
}

#[test]
fn on_iq_result_matches_delete_account() {
    let mut mgr = AccountManager::new();
    let (id, _iq) = mgr.build_delete_account_iq();
    let result_el = Element::new("iq", NS_CLIENT).with_attr("type", "result").with_attr("id", &id);
    let result = mgr.on_iq_result(&result_el).expect("expected a result");
    assert_eq!(result.kind, AccountIqKind::DeleteAccount);
    assert!(result.success);
}

#[test]
fn on_iq_result_detects_error() {
    let mut mgr = AccountManager::new();
    let (id, _iq) = mgr.build_change_password_iq("alice", "newpass");
    let error_el = Element::new("iq", NS_CLIENT).with_attr("type", "error").with_attr("id", &id);
    let result = mgr.on_iq_result(&error_el).expect("expected a result");
    assert_eq!(result.kind, AccountIqKind::ChangePassword);
    assert!(!result.success);
}

#[test]
fn on_iq_result_ignores_unknown_id() {
    let mut mgr = AccountManager::new();
    let el = Element::new("iq", NS_CLIENT).with_attr("type", "result").with_attr("id", "unknown-id");
    assert!(mgr.on_iq_result(&el).is_none());
}
