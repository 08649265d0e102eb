use rexisce::util::xml::Element;
use rexisce::xmpp::connection::sasl::SaslMechanism;
use rexisce::xmpp::connection::ConnectConfig;
use rexisce::xmpp::engine::{extract_carbon, is_auth_error, parse_host_port, NS_CARBONS};
use rexisce::xmpp::modules::NS_FORWARD;
use rexisce::xmpp::{IncomingMessage, RosterContact, XmppEvent};

#[test]
fn sasl_select_prefers_scram_sha256() {
    let offered = vec!["PLAIN".to_string(), "SCRAM-SHA-1".to_string(), "SCRAM-SHA-256".to_string()];
    assert_eq!(SaslMechanism::select(&offered), Some(SaslMechanism::ScramSha256));
}

#[test]
fn sasl_select_falls_back_to_scram_sha1() {
    let offered = vec!["PLAIN".to_string(), "SCRAM-SHA-1".to_string()];
    assert_eq!(SaslMechanism::select(&offered), Some(SaslMechanism::ScramSha1));
}

#[test]
fn sasl_select_falls_back_to_plain() {
    let offered = vec!["PLAIN".to_string()];
    assert_eq!(SaslMechanism::select(&offered), Some(SaslMechanism::Plain));
}

#[test]
fn sasl_select_returns_none_when_nothing_matches() {
    let offered = vec!["GSSAPI".to_string(), "EXTERNAL".to_string()];
    assert_eq!(SaslMechanism::select(&offered), None);
}

#[test]
fn sasl_select_empty_offered() {
    assert_eq!(SaslMechanism::select(&[]), None);
}

#[test]
fn parse_host_port_bare_domain() {
    let (host, port) = parse_host_port("example.com", 5222);
    assert_eq!(host, "example.com");
    assert_eq!(port, 5222);
}

#[test]
fn parse_host_port_with_port() {
    let (host, port) = parse_host_port("example.com:5223", 5222);
    assert_eq!(host, "example.com");
    assert_eq!(port, 5223);
}

#[test]
fn parse_host_port_trims_and_keeps_default_on_bad_port() {
    let (host, port) = parse_host_port("  example.com  ", 5222);
    assert_eq!(host, "example.com");
    assert_eq!(port, 5222);
}

fn plain_message(from: &str, to: &str, body: &str) -> Element {
    Element::new("message", "jabber:client")
        .with_attr("from", from)
        .with_attr("to", to)
        .with_attr("type", "chat")
        .with_child(Element::new("body", "jabber:client").with_text(body))
}

fn make_carbon_wrapper(direction: &str, inner_msg: Element) -> Element {
    let forwarded = Element::new("forwarded", NS_FORWARD).with_child(inner_msg);
    let carbon = Element::new(direction, NS_CARBONS).with_child(forwarded);
    Element::new("message", "jabber:client")
        .with_attr("from", "user@example.com")
        .with_attr("to", "user@example.com/res2")
        .with_child(carbon)
}

#[test]
fn extract_carbon_sent_returns_inner_message() {
    let inner = plain_message("user@example.com/res1", "alice@example.com", "hello");
    let wrapper = make_carbon_wrapper("sent", inner);
    let result = extract_carbon(&wrapper, "sent");
    assert!(result.is_some());
    let msg = result.unwrap();
    assert_eq!(msg.name(), "message");
    assert_eq!(msg.attr("to"), Some("alice@example.com"));
}

#[test]
fn extract_carbon_received_returns_inner_message() {
    let inner = plain_message("alice@example.com", "user@example.com/res1", "hi");
    let wrapper = make_carbon_wrapper("received", inner);
    let result = extract_carbon(&wrapper, "received");
    assert!(result.is_some());
    let msg = result.unwrap();
    assert_eq!(msg.name(), "message");
    assert_eq!(msg.attr("from"), Some("alice@example.com"));
}

#[test]
fn extract_carbon_wrong_direction_returns_none() {
    let inner = plain_message("alice@example.com", "user@example.com/res1", "hi");
    let wrapper = make_carbon_wrapper("received", inner);
    assert!(extract_carbon(&wrapper, "sent").is_none());
}

#[test]
fn extract_carbon_plain_message_returns_none() {
    let plain = plain_message("alice@example.com", "user@example.com", "hello");
    assert!(extract_carbon(&plain, "sent").is_none());
    assert!(extract_carbon(&plain, "received").is_none());
}

fn base_config() -> ConnectConfig {
    ConnectConfig {
        jid: "user@example.com".into(),
        password: "secret".into(),
        server: String::new(),
        status_message: None,
        send_receipts: true,
        send_typing: true,
        send_read_markers: true,
        proxy_type: None,
        proxy_host: None,
        proxy_port: None,
        manual_srv: None,
        push_service_jid: None,
    }
}

#[test]
fn connect_config_fields() {
    let cfg = ConnectConfig {
        server: "xmpp.example.com:5222".into(),
        status_message: Some("In a meeting".into()),
        ..base_config()
    };
    assert_eq!(cfg.jid, "user@example.com");
    assert_eq!(cfg.server, "xmpp.example.com:5222");
    assert_eq!(cfg.status_message, Some("In a meeting".into()));
    assert!(cfg.proxy_config().is_none());
}

#[test]
fn connect_config_proxy_config_some() {
    let cfg = ConnectConfig {
        proxy_type: Some("socks5".into()),
        proxy_host: Some("proxy.example.com".into()),
        proxy_port: Some(1080),
        ..base_config()
    };
    let pc = cfg.proxy_config();
    assert!(pc.is_some());
    let (t, h, p) = pc.unwrap();
    assert_eq!(t, "socks5");
    assert_eq!(h, "proxy.example.com");
    assert_eq!(p, 1080);
}

#[test]
fn connect_config_proxy_config_none_when_partial() {
    let cfg = ConnectConfig {
        proxy_type: Some("http".into()),
        proxy_host: None,
        proxy_port: Some(8080),
        ..base_config()
    };
    assert!(cfg.proxy_config().is_none());
}

#[test]
fn auth_errors_are_recognised() {
    assert!(is_auth_error("SASL authentication failed: not-authorized"));
    assert!(!is_auth_error("connection reset by peer"));
}


#[test]
fn xmpp_event_debug_clone() {
    let e = XmppEvent::Connected { bound_jid: "user@example.com/res".into() };
    let cloned = e.clone();
    let _ = format!("{cloned:?}");
}

#[test]
fn xmpp_event_disconnected_debug_clone() {
    let e = XmppEvent::Disconnected { reason: "test".into() };
    let cloned = e.clone();
    let _ = format!("{cloned:?}");
}

#[test]
fn xmpp_event_reconnecting_debug_clone() {
    let e = XmppEvent::Reconnecting { attempt: 3 };
    let cloned = e.clone();
    let _ = format!("{cloned:?}");
}

#[test]
fn xmpp_event_roster_received() {
    let contacts = vec![RosterContact {
        jid: "alice@example.com".into(),
        name: Some("Alice".into()),
        subscription: "Both".into(),
    }];
    let e = XmppEvent::RosterReceived(contacts);
    let _ = format!("{e:?}");
}

#[test]
fn xmpp_event_message_received() {
    let e = XmppEvent::MessageReceived(IncomingMessage {
        id: "m1".into(),
        from: "alice@example.com".into(),
        body: "Hello!".into(),
        is_historical: false,
        is_encrypted: false,
        is_trusted: false,
    });
    let _ = format!("{e:?}");
}

#[test]
fn xmpp_event_presence_updated() {
    let e = XmppEvent::PresenceUpdated { jid: "alice@example.com".into(), available: true };
    let _ = format!("{e:?}");
}
