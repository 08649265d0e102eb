use rexisce::util::xml::Element;
use rexisce::xmpp::modules::push::{PushManager, NS_PUSH};
use rexisce::xmpp::modules::NS_CLIENT;

// 1 -----------------------------------------------------------------------
#[test]
fn build_enable_iq_has_correct_ns() {
    let mut mgr = PushManager::new();
    let iq = mgr.build_enable_iq("push.example.com");

    // The <enable> child must carry the XEP-0357 namespace.
    let enable_el = iq
        .children()
        .iter()
        .find(|c| c.name() == "enable")
        .expect("<enable> child not found");

    assert_eq!(enable_el.ns(), NS_PUSH);
}

// 2 -----------------------------------------------------------------------
#[test]
fn build_enable_iq_has_jid_and_node() {
    let mut mgr = PushManager::new();
    let iq = mgr.build_enable_iq("push.example.com");

    assert_eq!(iq.attr("type"), Some("set"));

    let enable_el = iq
        .children()
        .iter()
        .find(|c| c.name() == "enable")
        .expect("<enable> child not found");

    assert_eq!(enable_el.attr("jid"), Some("push.example.com"));
    assert!(enable_el.attr("node").is_some());
}

// 3 -----------------------------------------------------------------------
#[test]
fn build_enable_iq_has_secret() {
    let mut mgr = PushManager::new();
    let iq = mgr.build_enable_iq("push.example.com");

    let enable_el = iq
        .children()
        .iter()
        .find(|c| c.name() == "enable")
        .expect("<enable> child not found");

    let secret_el = enable_el
        .children()
        .iter()
        .find(|c| c.name() == "secret" && c.ns() == NS_PUSH)
        .expect("<secret> child not found");

    // Secret should be 32 hex digits (16 bytes)
    let secret_text = secret_el.text();
    assert_eq!(secret_text.len(), 32);
    assert!(secret_text.chars().all(|c| c.is_ascii_hexdigit()));
}

// 4 -----------------------------------------------------------------------
#[test]
fn push_build_disable_iq_has_correct_ns() {
    let mut mgr = PushManager::new();
    let iq = mgr.build_disable_iq("push.example.com");

    let disable_el = iq
        .children()
        .iter()
        .find(|c| c.name() == "disable")
        .expect("<disable> child not found");

    assert_eq!(disable_el.ns(), NS_PUSH);
}

// 5 -----------------------------------------------------------------------
#[test]
fn push_build_disable_all_iq_has_no_jid() {
    let mgr = PushManager::new();
    let iq = mgr.build_disable_all_iq();

    assert_eq!(iq.attr("type"), Some("set"));

    let disable_el = iq
        .children()
        .iter()
        .find(|c| c.name() == "disable")
        .expect("<disable> child not found");

    // A "disable all" stanza must not carry jid or node attributes.
    assert_eq!(disable_el.attr("jid"), None);
    assert_eq!(disable_el.attr("node"), None);
}

// 6 -----------------------------------------------------------------------
#[test]
fn on_enable_result_tracks_subscription() {
    let mut mgr = PushManager::new();

    // First, build an enable IQ
    let (iq_id, _iq) = {
        let enable_iq = mgr.build_enable_iq("push.example.com");
        let id = enable_iq.attr("id").unwrap().to_string();
        (id, enable_iq)
    };

    // Now simulate a result IQ
    let result_iq = Element::new("iq", NS_CLIENT).with_attr("type", "result").with_attr("id", &iq_id);

    let result = mgr.on_enable_result(&result_iq);
    assert!(result.is_some());

    let (jid, node) = result.unwrap();
    assert_eq!(jid, "push.example.com");
    assert!(!node.is_empty());
}

// 7 -----------------------------------------------------------------------
#[test]
fn on_enable_error_clears_pending() {
    let mut mgr = PushManager::new();

    // Build an enable IQ
    let enable_iq = mgr.build_enable_iq("push.example.com");
    let iq_id = enable_iq.attr("id").unwrap().to_string();

    // Verify pending is populated
    assert!(mgr.is_enable_pending(&iq_id));

    // Simulate an error IQ
    let error_iq = Element::new("iq", NS_CLIENT).with_attr("type", "error").with_attr("id", &iq_id);

    let result = mgr.on_enable_error(&error_iq);
    assert!(result.is_some());
    assert!(!mgr.is_enable_pending(&iq_id));
}

// 8 -----------------------------------------------------------------------
#[test]
fn active_count_initially_zero() {
    let mgr = PushManager::new();
    assert_eq!(mgr.active_count(), 0);
}

// 9 -----------------------------------------------------------------------
#[test]
fn is_enabled_false_when_not_subscribed() {
    let mgr = PushManager::new();
    assert!(!mgr.is_enabled("push.example.com"));
}

// 10 -----------------------------------------------------------------------
#[test]
fn on_disable_result_disables_subscription() {
    let mut mgr = PushManager::new();

    // Enable first
    let enable_iq = mgr.build_enable_iq("push.example.com");
    let iq_id = enable_iq.attr("id").unwrap().to_string();

    let result_iq = Element::new("iq", NS_CLIENT).with_attr("type", "result").with_attr("id", &iq_id);

    mgr.on_enable_result(&result_iq);

    // Now disable
    let disable_iq = mgr.build_disable_iq("push.example.com");
    let disable_result = Element::new("iq", NS_CLIENT)
        .with_attr("type", "result")
        .with_attr("id", disable_iq.attr("id").unwrap())
        .with_child(Element::new("disable", NS_PUSH).with_attr("jid", "push.example.com"));

    mgr.on_disable_result(&disable_result);

    // Should no longer be enabled
    assert!(!mgr.is_enabled("push.example.com"));
}

#[test]
fn active_subscriptions_follow_enable_and_disable() {
    let mut mgr = PushManager::new();
    let a = mgr.build_enable_iq("a.example.com");
    let b = mgr.build_enable_iq("b.example.com");
    for iq in [&a, &b] {
        let result = Element::new("iq", NS_CLIENT).with_attr("type", "result").with_attr("id", iq.attr("id").unwrap());
        mgr.on_enable_result(&result).unwrap();
    }
    assert_eq!(mgr.active_count(), 2);
    assert!(mgr.is_enabled("a.example.com"));
    let disable = Element::new("iq", NS_CLIENT)
        .with_attr("type", "result")
        .with_child(Element::new("disable", NS_PUSH).with_attr("jid", "a.example.com"));
    assert_eq!(mgr.on_disable_result(&disable), Some("a.example.com".to_string()));
    assert_eq!(mgr.active_count(), 1);
    let active = mgr.active_subscriptions();
    assert_eq!(active.len(), 1);
    assert_eq!(active[0].service_jid, "b.example.com");
}

#[test]
fn enable_result_for_unknown_id_is_none() {
    let mut mgr = PushManager::new();
    let result = Element::new("iq", NS_CLIENT).with_attr("type", "result").with_attr("id", "nope");
    assert!(mgr.on_enable_result(&result).is_none());
    assert_eq!(mgr.active_count(), 0);
}

#[test]
fn on_enable_result_keeps_the_requested_node() {
    let mut mgr = PushManager::new();
    let enable_iq = mgr.build_enable_iq("push.example.com");
    let id = enable_iq.attr("id").unwrap().to_string();
    let sent_node = enable_iq.get_child("enable", NS_PUSH).unwrap().attr("node").unwrap().to_string();
    let result_iq = Element::new("iq", NS_CLIENT).with_attr("type", "result").with_attr("id", &id);
    let (jid, node) = mgr.on_enable_result(&result_iq).unwrap();
    assert_eq!(jid, "push.example.com");
    assert_eq!(node, sent_node);
    assert!(mgr.is_enabled("push.example.com"));
    let disable = mgr.build_disable_iq("push.example.com");
    assert_eq!(disable.get_child("disable", NS_PUSH).unwrap().attr("node"), Some(sent_node.as_str()));
}
