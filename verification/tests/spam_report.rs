use rexisce::util::xml::Element;
use rexisce::xmpp::modules::spam_report::{build_spam_report, NS_ABUSE};

fn report_of(el: &Element) -> &Element {
    el.children().iter().find(|c| c.name() == "report").expect("no report child")
}

#[test]
fn spam_report_has_correct_type_and_ns() {
    let el = build_spam_report("spammer@example.org", None);
    assert_eq!(el.name(), "iq");
    assert_eq!(el.attr("type"), Some("set"));
    assert!(el.attr("id").is_some());
    let report = report_of(&el);
    assert_eq!(report.ns(), NS_ABUSE);
    assert_eq!(report.attr("reason"), Some("spam"));
}

#[test]
fn spam_report_contains_jid() {
    let el = build_spam_report("spammer@example.org", None);
    let jid_el = report_of(&el).children().iter().find(|c| c.name() == "jid").expect("no jid child");
    assert_eq!(jid_el.text(), "spammer@example.org");
}

#[test]
fn spam_report_with_reason_includes_text_element() {
    let el = build_spam_report("spammer@example.org", Some("Sending unsolicited ads"));
    let text_el = report_of(&el).children().iter().find(|c| c.name() == "text").expect("no text child");
    assert_eq!(text_el.text(), "Sending unsolicited ads");
}

#[test]
fn spam_report_without_reason_has_no_text_element() {
    let el = build_spam_report("spammer@example.org", None);
    assert!(report_of(&el).children().iter().find(|c| c.name() == "text").is_none());
}

#[test]
fn spam_report_unique_ids() {
    let el1 = build_spam_report("a@example.org", None);
    let el2 = build_spam_report("a@example.org", None);
    assert_ne!(el1.attr("id"), el2.attr("id"));
}
