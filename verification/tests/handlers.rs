use std::collections::VecDeque;

use rexisce::util::xml::Element;
use rexisce::xmpp::handlers::command::{handle_command, CommandOutcome};
use rexisce::xmpp::handlers::dispatch::{handle_client_event, ClientEvent};
use rexisce::xmpp::handlers::message::handle_message;
use rexisce::xmpp::handlers::outgoing::note_outgoing;
use rexisce::xmpp::handlers::SessionState;
use rexisce::xmpp::modules::blocking::{BlockingManager, NS_BLOCKING};
use rexisce::xmpp::modules::ignore::IgnoreManager;
use rexisce::xmpp::modules::stream_mgmt::{StreamMgmt, NS_SM};
use rexisce::xmpp::{XmppCommand, XmppEvent};

const NS_RECEIPTS: &str = "urn:xmpp:receipts";

fn chat(from: &str, id: &str, body: &str) -> Element {
    Element::new("message", "jabber:client")
        .with_attr("type", "chat")
        .with_attr("from", from)
        .with_attr("id", id)
        .with_child(Element::new("body", "jabber:client").with_text(body))
}

#[test]
fn message_with_body_is_delivered() {
    let mut outbox = VecDeque::new();
    let events = handle_message(
        &chat("alice@example.com/phone", "m1", "Hello!"),
        &BlockingManager::new(),
        &IgnoreManager::new(),
        &mut outbox,
        0b111,
    );
    assert_eq!(events.len(), 1);
    match &events[0] {
        XmppEvent::MessageReceived(m) => {
            assert_eq!(m.id, "m1");
            assert_eq!(m.from, "alice@example.com/phone");
            assert_eq!(m.body, "Hello!");
            assert!(!m.is_historical);
        }
        other => panic!("unexpected event {other:?}"),
    }
    assert!(outbox.is_empty());
}

#[test]
fn receipt_request_is_answered_when_receipts_enabled() {
    let el = chat("alice@example.com/phone", "m2", "ping").with_child(Element::new("request", NS_RECEIPTS));
    let mut outbox = VecDeque::new();
    let events = handle_message(&el, &BlockingManager::new(), &IgnoreManager::new(), &mut outbox, 0b001);
    assert_eq!(events.len(), 1);
    assert_eq!(outbox.len(), 1);
    let reply = &outbox[0];
    assert_eq!(reply.name(), "message");
    assert_eq!(reply.attr("to"), Some("alice@example.com/phone"));
    let received = reply.get_child("received", NS_RECEIPTS).expect("received child");
    assert_eq!(received.attr("id"), Some("m2"));
}

#[test]
fn receipt_request_is_ignored_when_receipts_disabled() {
    let el = chat("alice@example.com/phone", "m3", "ping").with_child(Element::new("request", NS_RECEIPTS));
    let mut outbox = VecDeque::new();
    let events = handle_message(&el, &BlockingManager::new(), &IgnoreManager::new(), &mut outbox, 0b110);
    assert_eq!(events.len(), 1);
    assert!(outbox.is_empty());
}

#[test]
fn message_from_blocked_sender_is_dropped() {
    let mut blocking = BlockingManager::new();
    let push = Element::new("iq", "jabber:client").with_attr("type", "set").with_child(
        Element::new("block", NS_BLOCKING).with_child(Element::new("item", NS_BLOCKING).with_attr("jid", "spam@example.com")),
    );
    blocking.on_block_push(&push);
    assert!(blocking.is_blocked("spam@example.com"));
    let mut outbox = VecDeque::new();
    let events = handle_message(&chat("spam@example.com/bot", "s1", "buy"), &blocking, &IgnoreManager::new(), &mut outbox, 0b111);
    assert!(events.is_empty());
}

#[test]
fn delivery_receipt_reports_delivered() {
    let el = Element::new("message", "jabber:client")
        .with_attr("from", "bob@example.com/desk")
        .with_child(Element::new("received", NS_RECEIPTS).with_attr("id", "m9"));
    let mut outbox = VecDeque::new();
    let events = handle_message(&el, &BlockingManager::new(), &IgnoreManager::new(), &mut outbox, 0);
    assert_eq!(events.len(), 1);
    match &events[0] {
        XmppEvent::MessageDelivered { id, from } => {
            assert_eq!(id, "m9");
            assert_eq!(from, "bob@example.com");
        }
        other => panic!("unexpected event {other:?}"),
    }
}

#[test]
fn direct_invitation_is_reported() {
    let el = Element::new("message", "jabber:client").with_attr("from", "carol@example.com/x").with_child(
        Element::new("x", "jabber:x:conference")
            .with_attr("jid", "room@conference.example.com")
            .with_child(Element::new("reason", "jabber:x:conference").with_text("join us")),
    );
    let mut outbox = VecDeque::new();
    let events = handle_message(&el, &BlockingManager::new(), &IgnoreManager::new(), &mut outbox, 0);
    assert_eq!(events.len(), 1);
    match &events[0] {
        XmppEvent::RoomInvitationReceived { room_jid, from_jid, reason } => {
            assert_eq!(room_jid, "room@conference.example.com");
            assert_eq!(from_jid, "carol@example.com");
            assert_eq!(reason.as_deref(), Some("join us"));
        }
        other => panic!("unexpected event {other:?}"),
    }
}

#[test]
fn send_message_command_queues_chat_message() {
    let mut st = SessionState::new(None);
    let mut outbox = VecDeque::new();
    let r = handle_command(
        XmppCommand::SendMessage { to: "bob@example.com".into(), body: "hi".into(), id: "x1".into() },
        &mut st,
        &mut outbox,
        "me@example.com",
        0b111,
    );
    assert_eq!(r, CommandOutcome::Handled);
    assert_eq!(outbox.len(), 1);
    let m = &outbox[0];
    assert_eq!(m.name(), "message");
    assert_eq!(m.attr("to"), Some("bob@example.com"));
    assert_eq!(m.attr("id"), Some("x1"));
    assert_eq!(m.get_child_named("body").map(|b| b.text()), Some("hi".to_string()));
}

#[test]
fn send_message_to_invalid_address_queues_nothing() {
    let mut st = SessionState::new(None);
    let mut outbox = VecDeque::new();
    let r = handle_command(
        XmppCommand::SendMessage { to: "@".into(), body: "hi".into(), id: "x2".into() },
        &mut st,
        &mut outbox,
        "me@example.com",
        0b111,
    );
    assert_eq!(r, CommandOutcome::Handled);
    assert!(outbox.is_empty());
}

#[test]
fn chat_state_respects_typing_preference() {
    let mut st = SessionState::new(None);
    let mut outbox = VecDeque::new();
    let cmd = || XmppCommand::SendChatState { to: "bob@example.com".into(), composing: true };
    handle_command(cmd(), &mut st, &mut outbox, "me@example.com", 0b101);
    assert!(outbox.is_empty());
    handle_command(cmd(), &mut st, &mut outbox, "me@example.com", 0b010);
    assert_eq!(outbox.len(), 1);
    assert!(outbox[0].get_child("composing", "jabber:x:chatstates").is_some());
}

#[test]
fn disconnect_and_omemo_commands_leave_the_loop_or_defer() {
    let mut st = SessionState::new(None);
    let mut outbox = VecDeque::new();
    assert_eq!(handle_command(XmppCommand::Disconnect, &mut st, &mut outbox, "me@example.com", 0), CommandOutcome::Stop);
    assert_eq!(handle_command(XmppCommand::OmemoEnable, &mut st, &mut outbox, "me@example.com", 0), CommandOutcome::Omemo);
    assert!(outbox.is_empty());
}

#[test]
fn block_command_queues_block_iq() {
    let mut st = SessionState::new(None);
    let mut outbox = VecDeque::new();
    handle_command(XmppCommand::BlockJid("spam@example.com".into()), &mut st, &mut outbox, "me@example.com", 0);
    assert_eq!(outbox.len(), 1);
    let iq = &outbox[0];
    assert_eq!(iq.attr("type"), Some("set"));
    let block = iq.get_child("block", NS_BLOCKING).expect("block child");
    assert_eq!(block.children().len(), 1);
    assert_eq!(block.children()[0].attr("jid"), Some("spam@example.com"));
}

#[test]
fn upload_slot_goes_to_upload_service_of_account_domain() {
    let mut st = SessionState::new(None);
    let mut outbox = VecDeque::new();
    handle_command(
        XmppCommand::RequestUploadSlot { filename: "a.png".into(), size: 10, mime: "image/png".into() },
        &mut st,
        &mut outbox,
        "me@example.com",
        0,
    );
    assert_eq!(outbox.len(), 1);
    assert_eq!(outbox[0].attr("to"), Some("upload.example.com"));
}

#[test]
fn every_fifth_counted_stanza_requests_an_ack() {
    let mut sm = StreamMgmt::new();
    let mut outbox = VecDeque::new();
    for i in 0..4 {
        note_outgoing(&mut sm, &chat("a@b", &format!("i{i}"), "x"), &mut outbox);
        assert!(outbox.is_empty());
    }
    note_outgoing(&mut sm, &Element::new("r", NS_SM), &mut outbox);
    assert_eq!(sm.pending_count(), 4);
    assert!(outbox.is_empty());
    note_outgoing(&mut sm, &chat("a@b", "i4", "x"), &mut outbox);
    assert_eq!(sm.pending_count(), 5);
    assert_eq!(outbox.len(), 1);
    assert_eq!(outbox[0].name(), "r");
    assert_eq!(outbox[0].ns(), NS_SM);
}

#[test]
fn online_event_reports_connected_and_queues_setup() {
    let mut st = SessionState::new(None);
    let mut outbox = VecDeque::new();
    let mut attempt = 3u32;
    let mut own = String::new();
    let r = handle_client_event(
        ClientEvent::Online { bound_jid: "me@example.com/res".into() },
        &mut st,
        &mut outbox,
        &mut attempt,
        &mut own,
        None,
        None,
        0,
    );
    assert!(!r.stop);
    assert!(r.follow_up.is_none());
    assert_eq!(attempt, 0);
    assert_eq!(own, "me@example.com/res");
    assert_eq!(r.events.len(), 1);
    assert!(matches!(&r.events[0], XmppEvent::Connected { bound_jid } if bound_jid == "me@example.com/res"));
    assert_eq!(outbox.len(), 8);
    assert_eq!(outbox[2].name(), "presence");
}

#[test]
fn disconnect_counts_reconnect_attempts_and_stops_on_auth_failure() {
    let mut st = SessionState::new(None);
    let mut outbox = VecDeque::new();
    let mut attempt = 0u32;
    let mut own = String::new();
    let r = handle_client_event(
        ClientEvent::Disconnected { error: "connection reset".into() },
        &mut st,
        &mut outbox,
        &mut attempt,
        &mut own,
        None,
        None,
        0,
    );
    assert!(!r.stop);
    assert_eq!(attempt, 1);
    assert!(matches!(&r.events[0], XmppEvent::Reconnecting { attempt: 1 }));
    let r = handle_client_event(
        ClientEvent::Disconnected { error: "SASL authentication failed: not-authorized".into() },
        &mut st,
        &mut outbox,
        &mut attempt,
        &mut own,
        None,
        None,
        0,
    );
    assert!(r.stop);
    assert_eq!(attempt, 1);
    assert!(matches!(&r.events[0], XmppEvent::Disconnected { .. }));
}

#[test]
fn stanza_event_routes_roster_result() {
    let mut st = SessionState::new(None);
    let mut outbox = VecDeque::new();
    let mut attempt = 0u32;
    let mut own = "me@example.com/res".to_string();
    let roster = Element::new("iq", "jabber:client").with_attr("type", "result").with_attr("id", "r1").with_child(
        Element::new("query", "jabber:iq:roster").with_child(
            Element::new("item", "jabber:iq:roster")
                .with_attr("jid", "alice@example.com")
                .with_attr("name", "Alice")
                .with_attr("subscription", "both"),
        ),
    );
    let r = handle_client_event(ClientEvent::Stanza(roster), &mut st, &mut outbox, &mut attempt, &mut own, None, None, 0);
    assert!(!r.stop);
    assert_eq!(st.sm.h(), 1);
    let contacts = r
        .events
        .iter()
        .find_map(|e| match e {
            XmppEvent::RosterReceived(c) => Some(c.clone()),
            _ => None,
        })
        .expect("roster event");
    assert_eq!(contacts.len(), 1);
    assert_eq!(contacts[0].jid, "alice@example.com");
    assert_eq!(contacts[0].name.as_deref(), Some("Alice"));
}

#[test]
fn message_with_invalid_sender_is_dropped() {
    let mut outbox = VecDeque::new();
    let events = handle_message(&chat("@example.com", "m9", "hi"), &BlockingManager::new(), &IgnoreManager::new(), &mut outbox, 0b001);
    assert!(events.is_empty());
    assert!(outbox.is_empty());
}
