use rexisce::xmpp::modules::console::{StanzaDirection, StanzaEntry, XmppConsole};

#[test]
fn push_and_len() {
    let mut console = XmppConsole::new(10);
    assert!(console.is_empty());
    console.push_sent("<presence/>", 1000);
    console.push_received("<presence type='unavailable'/>", 2000);
    assert_eq!(console.len(), 2);
    assert!(!console.is_empty());
}

#[test]
fn circular_buffer_drops_oldest() {
    let mut console = XmppConsole::new(3);
    console.push_sent("<a/>", 1);
    console.push_sent("<b/>", 2);
    console.push_sent("<c/>", 3);
    console.push_sent("<d/>", 4);
    assert_eq!(console.len(), 3);
    let xmls: Vec<&str> = console.entries().into_iter().map(|e| e.xml.as_str()).collect();
    assert_eq!(xmls, vec!["<b/>", "<c/>", "<d/>"]);
}

#[test]
fn search_finds_matching() {
    let mut console = XmppConsole::new(10);
    console.push_sent("<message to='alice@example.org'/>", 1);
    console.push_received("<presence from='bob@example.org'/>", 2);
    console.push_sent("<iq id='ping-1'/>", 3);

    let results: Vec<&StanzaEntry> = console.search("message");
    assert_eq!(results.len(), 1);
    assert!(results[0].xml.contains("message"));

    let results_upper: Vec<&StanzaEntry> = console.search("MESSAGE");
    assert_eq!(results_upper.len(), 1);
}

#[test]
fn clear_empties_buffer() {
    let mut console = XmppConsole::new(10);
    console.push_sent("<a/>", 1);
    console.push_received("<b/>", 2);
    assert_eq!(console.len(), 2);
    console.clear();
    assert_eq!(console.len(), 0);
    assert!(console.is_empty());
}

#[test]
fn entries_order_oldest_first() {
    let mut console = XmppConsole::new(10);
    console.push_sent("<first/>", 100);
    console.push_received("<second/>", 200);
    console.push_sent("<third/>", 300);

    let entries: Vec<&StanzaEntry> = console.entries();
    assert_eq!(entries[0].timestamp_ms, 100);
    assert_eq!(entries[1].timestamp_ms, 200);
    assert_eq!(entries[2].timestamp_ms, 300);
    assert_eq!(entries[0].direction, StanzaDirection::Sent);
    assert_eq!(entries[1].direction, StanzaDirection::Received);
}

#[test]
fn console_never_exceeds_capacity() {
    let mut console = XmppConsole::new(2);
    for t in 0..10u64 {
        console.push_sent("<x/>", t);
        assert!(console.len() <= 2);
    }
    let ts: Vec<u64> = console.entries().into_iter().map(|e| e.timestamp_ms).collect();
    assert_eq!(ts, vec![8, 9]);
}
