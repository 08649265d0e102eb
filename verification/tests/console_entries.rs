use std::collections::VecDeque;

use rexisce::util::xml::Element;
use rexisce::util::xml_text::stanza_xml;
use rexisce::xmpp::connection::ServerTarget;
use rexisce::xmpp::handlers::dispatch::dispatch_stanza;
use rexisce::xmpp::handlers::outgoing::note_outgoing;
use rexisce::xmpp::handlers::SessionState;
use rexisce::xmpp::modules::stream_mgmt::{StreamMgmt, NS_SM};
use rexisce::xmpp::XmppEvent;

#[test]
fn stanza_text_escapes_and_declares_namespaces() {
    let el = Element::new("message", "jabber:client")
        .with_attr("to", "a@b")
        .with_child(Element::new("body", "jabber:client").with_text("hi & <bye>"))
        .with_child(Element::new("request", "urn:xmpp:receipts"));
    assert_eq!(
        stanza_xml(&el),
        "<message xmlns='jabber:client' to='a@b'><body>hi &amp; &lt;bye&gt;</body><request xmlns='urn:xmpp:receipts'/></message>"
    );
}

#[test]
fn every_received_stanza_goes_to_the_console_first() {
    let mut st = SessionState::new(None);
    let mut outbox = VecDeque::new();
    let ack = Element::new("a", NS_SM).with_attr("h", "0");
    let d = dispatch_stanza(&ack, &mut st, &mut outbox, "me@example.com/r", 0);
    assert_eq!(d.events.len(), 1);
    match &d.events[0] {
        XmppEvent::ConsoleEntry { direction, xml } => {
            assert_eq!(direction, "recv");
            assert_eq!(xml, "<a xmlns='urn:xmpp:sm:3' h='0'/>");
        }
        other => panic!("unexpected {other:?}"),
    }
}

#[test]
fn every_sent_stanza_goes_to_the_console() {
    let mut sm = StreamMgmt::new();
    let mut outbox = VecDeque::new();
    let el = Element::new("presence", "jabber:client");
    match note_outgoing(&mut sm, &el, &mut outbox) {
        XmppEvent::ConsoleEntry { direction, xml } => {
            assert_eq!(direction, "sent");
            assert_eq!(xml, "<presence xmlns='jabber:client'/>");
        }
        other => panic!("unexpected {other:?}"),
    }
}

#[test]
fn bare_domain_server_field_resolves_through_srv() {
    assert!(matches!(ServerTarget::parse("example.com", "jid.example"), ServerTarget::Domain(d) if d == "example.com"));
    assert!(matches!(ServerTarget::parse("", "jid.example"), ServerTarget::Domain(d) if d == "jid.example"));
    assert!(matches!(ServerTarget::parse("example.com:5223", "x"), ServerTarget::DirectTls { port: 5223, .. }));
    assert!(matches!(ServerTarget::parse("example.com:5222", "x"), ServerTarget::StartTls { port: 5222, .. }));
}
