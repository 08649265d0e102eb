use rexisce::util::xml::Element;
use rexisce::xmpp::modules::registration::{registration_command, registration_step, RegistrationAction, NS_REGISTER};
use rexisce::xmpp::{XmppCommand, XmppEvent};

#[test]
fn form_result_hands_the_form_over() {
    let el = Element::new("iq", "jabber:client")
        .with_attr("type", "result")
        .with_attr("id", "reg1")
        .with_child(Element::new("query", NS_REGISTER).with_child(Element::new("username", NS_REGISTER)));
    let step = registration_step(&el, "example.com");
    assert!(!step.finished);
    match step.event {
        Some(XmppEvent::RegistrationFormReceived { _server, _form }) => {
            assert_eq!(_server, "example.com");
            assert_eq!(_form.name(), "query");
            assert_eq!(_form.children().len(), 1);
        }
        other => panic!("unexpected {other:?}"),
    }
}

#[test]
fn plain_result_is_success() {
    let el = Element::new("iq", "jabber:client").with_attr("type", "result").with_attr("id", "reg2");
    let step = registration_step(&el, "example.com");
    assert!(step.finished);
    assert!(matches!(step.event, Some(XmppEvent::RegistrationSuccess)));
}

#[test]
fn error_reports_failure() {
    let el = Element::new("iq", "jabber:client")
        .with_attr("type", "error")
        .with_child(Element::new("error", "jabber:client").with_child(Element::new("conflict", "urn:ietf:params:xml:ns:xmpp-stanzas")));
    let step = registration_step(&el, "example.com");
    assert!(step.finished);
    assert!(matches!(step.event, Some(XmppEvent::RegistrationFailure(ref r)) if r == "error"));
    let bare = Element::new("iq", "jabber:client").with_attr("type", "error");
    let step = registration_step(&bare, "example.com");
    assert!(matches!(step.event, Some(XmppEvent::RegistrationFailure(ref r)) if r == "unknown error"));
}

#[test]
fn other_stanzas_are_ignored() {
    let el = Element::new("message", "jabber:client");
    let step = registration_step(&el, "example.com");
    assert!(!step.finished);
    assert!(step.event.is_none());
}

#[test]
fn submit_and_disconnect_commands() {
    let form = Element::new("x", "jabber:x:data");
    match registration_command(XmppCommand::SubmitRegistration { server: "example.com".into(), form }) {
        RegistrationAction::Send(iq) => {
            assert_eq!(iq.attr("id"), Some("reg2"));
            assert_eq!(iq.attr("type"), Some("set"));
            let q = iq.get_child("query", NS_REGISTER).expect("query");
            assert_eq!(q.children()[0].name(), "x");
        }
        other => panic!("unexpected {other:?}"),
    }
    assert!(matches!(registration_command(XmppCommand::Disconnect), RegistrationAction::Stop));
    assert!(matches!(registration_command(XmppCommand::FetchRoomList), RegistrationAction::Ignore));
}
