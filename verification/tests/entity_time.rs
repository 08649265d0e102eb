use rexisce::util::xml::Element;
use rexisce::xmpp::modules::entity_time::{parse_tzo, EntityTimeManager, NS_TIME};
use rexisce::xmpp::modules::NS_CLIENT;

fn time_result(id: &str, from: &str, tzo: &str, tz: Option<&str>) -> Element {
    let mut time_el = Element::new("time", NS_TIME)
        .with_child(Element::new("tzo", NS_TIME).with_text(tzo))
        .with_child(Element::new("utc", NS_TIME).with_text("2026-03-21T18:00:00Z"));
    if let Some(t) = tz {
        time_el.push_child(Element::new("tz", NS_TIME).with_text(t));
    }
    Element::new("iq", NS_CLIENT).with_attr("type", "result").with_attr("id", id).with_attr("from", from).with_child(time_el)
}

#[test]
fn build_request_registers_pending() {
    let mut mgr = EntityTimeManager::new();
    let (id, iq) = mgr.build_request("alice@example.com");
    assert_eq!(iq.name(), "iq");
    assert_eq!(iq.attr("type"), Some("get"));
    assert_eq!(iq.attr("to"), Some("alice@example.com"));
    assert_eq!(iq.attr("id"), Some(id.as_str()));
    let r = mgr.on_result(&time_result(&id, "alice@example.com", "+01:00", None));
    assert_eq!(r.map(|t| t.jid), Some("alice@example.com".to_string()), "the request was pending for alice");
}

#[test]
fn on_result_parses_tzo_offset() {
    let mut mgr = EntityTimeManager::new();
    let (id, _) = mgr.build_request("bob@example.com");
    let result = mgr.on_result(&time_result(&id, "bob@example.com", "-03:00", None));
    assert!(result.is_some());
    let et = result.unwrap();
    assert_eq!(et.utc_offset_seconds, -10800);
    assert_eq!(et.jid, "bob@example.com");
}

#[test]
fn on_result_caches_entry() {
    let mut mgr = EntityTimeManager::new();
    let (id, _) = mgr.build_request("carol@example.com");
    mgr.on_result(&time_result(&id, "carol@example.com", "+05:30", None));
    let cached = mgr.get("carol@example.com");
    assert!(cached.is_some());
    assert_eq!(cached.unwrap().utc_offset_seconds, 19800);
}

#[test]
fn get_returns_none_for_unknown() {
    let mgr = EntityTimeManager::new();
    assert!(mgr.get("nobody@example.com").is_none());
}

#[test]
fn parse_tzo_utc() {
    assert_eq!(parse_tzo("+00:00"), Some(0));
}

#[test]
fn parse_tzo_invalid() {
    assert!(parse_tzo("not-a-tzo").is_none());
    assert!(parse_tzo("").is_none());
}

#[test]
fn parse_tzo_more_forms() {
    assert_eq!(parse_tzo("  -03:30 "), Some(-12600));
    assert_eq!(parse_tzo("+5:45"), Some(20700));
    assert!(parse_tzo("05:00").is_none());
    assert!(parse_tzo("+0500").is_none());
    assert!(parse_tzo("+05:00:00").is_none());
}

#[test]
fn tz_name_kept_when_non_empty() {
    let mut mgr = EntityTimeManager::new();
    let (id, _) = mgr.build_request("dan@example.com");
    let t = mgr.on_result(&time_result(&id, "dan@example.com", "-03:00", Some("America/Sao_Paulo"))).unwrap();
    assert_eq!(t.tz_name.as_deref(), Some("America/Sao_Paulo"));
    let (id2, _) = mgr.build_request("dan@example.com");
    let t2 = mgr.on_result(&time_result(&id2, "dan@example.com", "-03:00", Some(""))).unwrap();
    assert_eq!(t2.tz_name, None);
}

#[test]
fn answer_to_unknown_or_answered_request_is_ignored() {
    let mut mgr = EntityTimeManager::new();
    let (id, _) = mgr.build_request("eve@example.com");
    assert!(mgr.on_result(&time_result("other", "eve@example.com", "+01:00", None)).is_none());
    assert!(mgr.on_result(&time_result(&id, "eve@example.com", "+01:00", None)).is_some());
    assert!(mgr.on_result(&time_result(&id, "eve@example.com", "+02:00", None)).is_none());
    assert_eq!(mgr.get("eve@example.com").unwrap().utc_offset_seconds, 3600);
}

#[test]
fn parse_tzo_accepts_exactly_two_digit_hours_and_minutes() {
    assert_eq!(parse_tzo(" -03:00 "), Some(-10800));
    assert_eq!(parse_tzo("+05:30"), Some(19800));
    assert_eq!(parse_tzo("+-05:00"), None);
    assert_eq!(parse_tzo("+5:3"), None);
    assert_eq!(parse_tzo("+999999:00"), None);
    assert_eq!(parse_tzo("05:00"), None);
    assert_eq!(parse_tzo("+05-00"), None);
}
