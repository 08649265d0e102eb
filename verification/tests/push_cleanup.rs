use rexisce::util::xml::Element;
use rexisce::xmpp::modules::push::NS_PUSH;
use rexisce::xmpp::modules::push_cleanup::PushCleanup;

fn disable_of(iq: &Element) -> &Element {
    iq.children().iter().find(|c| c.name() == "disable").expect("<disable> child not found")
}

#[test]
fn push_cleanup_build_disable_iq_has_correct_ns() {
    let cleaner = PushCleanup::new();
    let iq = cleaner.build_disable_iq("push.example.com", "node-abc");
    assert_eq!(disable_of(&iq).ns(), NS_PUSH);
}

#[test]
fn build_disable_iq_has_jid_and_node() {
    let cleaner = PushCleanup::new();
    let iq = cleaner.build_disable_iq("push.example.com", "node-abc");
    assert_eq!(iq.attr("type"), Some("set"));
    let disable_el = disable_of(&iq);
    assert_eq!(disable_el.attr("jid"), Some("push.example.com"));
    assert_eq!(disable_el.attr("node"), Some("node-abc"));
}

#[test]
fn push_cleanup_build_disable_all_iq_has_no_jid() {
    let cleaner = PushCleanup::new();
    let iq = cleaner.build_disable_all_iq();
    assert_eq!(iq.attr("type"), Some("set"));
    let disable_el = disable_of(&iq);
    assert_eq!(disable_el.attr("jid"), None);
    assert_eq!(disable_el.attr("node"), None);
}
