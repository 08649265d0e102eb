use rexisce::util::xml::Element;
use rexisce::xmpp::modules::stream_mgmt::{StreamMgmt, NS_SM};

fn make_element(name: &str) -> Element {
    Element::new(name, "jabber:client")
}

#[test]
fn new_starts_at_zero() {
    let sm = StreamMgmt::new();
    assert_eq!(sm.stanzas_sent(), 0);
    assert_eq!(sm.stanzas_acked(), 0);
    assert_eq!(sm.server_h(), 0);
    assert_eq!(sm.h(), 0);
    assert_eq!(sm.pending_count(), 0);
}

#[test]
fn on_stanza_sent_increments_count_and_pushes_unacked() {
    let mut sm = StreamMgmt::new();
    sm.on_stanza_sent(make_element("message"));
    assert_eq!(sm.stanzas_sent(), 1);
    assert_eq!(sm.pending_count(), 1);
    sm.on_stanza_sent(make_element("message"));
    assert_eq!(sm.stanzas_sent(), 2);
    assert_eq!(sm.pending_count(), 2);
}

#[test]
fn on_stanza_received_increments_h() {
    let mut sm = StreamMgmt::new();
    assert_eq!(sm.h(), 0);
    sm.on_stanza_received();
    assert_eq!(sm.h(), 1);
    sm.on_stanza_received();
    sm.on_stanza_received();
    assert_eq!(sm.h(), 3);
}

#[test]
fn on_ack_received_drains_unacked_correctly() {
    let mut sm = StreamMgmt::new();
    sm.on_stanza_sent(make_element("m1"));
    sm.on_stanza_sent(make_element("m2"));
    sm.on_stanza_sent(make_element("m3"));
    assert_eq!(sm.pending_count(), 3);
    sm.on_ack_received(2);
    assert_eq!(sm.pending_count(), 1);
    assert_eq!(sm.stanzas_acked(), 2);
}

#[test]
fn on_ack_received_drains_all_when_fully_acked() {
    let mut sm = StreamMgmt::new();
    sm.on_stanza_sent(make_element("m1"));
    sm.on_stanza_sent(make_element("m2"));
    sm.on_ack_received(2);
    assert_eq!(sm.pending_count(), 0);
    assert_eq!(sm.stanzas_acked(), 2);
}

#[test]
fn build_ack_returns_element_with_correct_h_attribute() {
    let mut sm = StreamMgmt::new();
    sm.on_stanza_received();
    sm.on_stanza_received();
    sm.on_stanza_received();
    let ack = sm.build_ack();
    assert_eq!(ack.name(), "a");
    assert_eq!(ack.ns(), NS_SM);
    assert_eq!(ack.attr("h"), Some("3"));
}

#[test]
fn build_request_returns_r_with_correct_namespace() {
    let sm = StreamMgmt::new();
    let r = sm.build_request();
    assert_eq!(r.name(), "r");
    assert_eq!(r.ns(), NS_SM);
}

#[test]
fn pending_count_is_accurate() {
    let mut sm = StreamMgmt::new();
    assert_eq!(sm.pending_count(), 0);
    sm.on_stanza_sent(make_element("msg"));
    assert_eq!(sm.pending_count(), 1);
    sm.on_ack_received(1);
    assert_eq!(sm.pending_count(), 0);
}

#[test]
fn reset_clears_all_state() {
    let mut sm = StreamMgmt::new();
    sm.on_stanza_sent(make_element("msg"));
    sm.on_stanza_received();
    sm.on_stanza_received();
    sm.on_ack_received(1);
    sm.reset();
    assert_eq!(sm.stanzas_sent(), 0);
    assert_eq!(sm.stanzas_acked(), 0);
    assert_eq!(sm.server_h(), 0);
    assert_eq!(sm.h(), 0);
    assert_eq!(sm.pending_count(), 0);
}

#[test]
fn unacked_stanzas_returns_remaining_queue() {
    let mut sm = StreamMgmt::new();
    sm.on_stanza_sent(make_element("m1"));
    sm.on_stanza_sent(make_element("m2"));
    sm.on_stanza_sent(make_element("m3"));
    sm.on_ack_received(1);
    let queue = sm.unacked_stanzas();
    assert_eq!(queue.len(), 2);
    assert_eq!(queue[0].name(), "m2");
    assert_eq!(queue[1].name(), "m3");
}

#[test]
fn maybe_send_ack_returns_none_when_no_pending_ack() {
    let mut sm = StreamMgmt::new();
    assert!(sm.maybe_send_ack().is_none());
}

#[test]
fn maybe_send_ack_first_ack_goes_out() {
    let mut sm = StreamMgmt::new();
    sm.on_stanza_received();
    let ack = sm.maybe_send_ack().expect("first ack is never held back");
    assert_eq!(ack.name(), "a");
    assert_eq!(ack.ns(), NS_SM);
    assert_eq!(ack.attr("h"), Some("1"));
    assert!(!sm.has_pending_ack());
    assert!(sm.maybe_send_ack().is_none());
}

#[test]
fn maybe_send_ack_respects_debounce_window() {
    let mut sm = StreamMgmt::new();
    sm.on_stanza_received();
    // An ack has just gone out, so the window has not elapsed.
    assert!(sm.flush_ack().is_some());
    sm.on_stanza_received();
    assert!(sm.maybe_send_ack().is_none());
    assert!(sm.has_pending_ack());
}

#[test]
fn send_ack_if_window_follows_the_decision() {
    let mut sm = StreamMgmt::new();
    sm.on_stanza_received();
    assert!(sm.send_ack_if_window(false).is_none());
    assert!(sm.has_pending_ack());
    let ack = sm.send_ack_if_window(true).expect("window elapsed");
    assert_eq!(ack.attr("h"), Some("1"));
    assert!(!sm.has_pending_ack());
}

#[test]
fn flush_ack_returns_ack_immediately() {
    let mut sm = StreamMgmt::new();
    sm.on_stanza_received();
    assert!(sm.flush_ack().is_some());
    sm.on_stanza_received();
    sm.on_stanza_received();
    let ack = sm.flush_ack().expect("pending ack");
    assert_eq!(ack.name(), "a");
    assert_eq!(ack.attr("h"), Some("3"));
    assert!(!sm.has_pending_ack());
}

#[test]
fn flush_ack_returns_none_when_no_pending() {
    let mut sm = StreamMgmt::new();
    assert!(sm.flush_ack().is_none());
}

#[test]
fn has_queue_desync_triggers_above_50() {
    let mut sm = StreamMgmt::new();
    for _ in 0..51 {
        sm.on_stanza_sent(make_element("msg"));
    }
    assert!(sm.has_queue_desync());
}

#[test]
fn has_queue_desync_false_within_limit() {
    let mut sm = StreamMgmt::new();
    for _ in 0..50 {
        sm.on_stanza_sent(make_element("msg"));
    }
    assert!(!sm.has_queue_desync());
    sm.on_ack_received(50);
    assert!(!sm.has_queue_desync());
}

#[test]
fn ack_beyond_queue_only_drains_what_is_queued() {
    let mut sm = StreamMgmt::new();
    sm.on_stanza_sent(make_element("m1"));
    sm.on_ack_received(5);
    assert_eq!(sm.pending_count(), 0);
    assert_eq!(sm.server_h(), 5);
}
