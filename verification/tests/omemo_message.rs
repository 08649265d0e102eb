use rexisce::xmpp::modules::omemo::message::{
    build_encrypted_message, build_key_transport, is_key_transport, parse_encrypted_message, EncryptedMessage, MessageHeader,
    MessageKey,
};
use rexisce::xmpp::modules::omemo::NS_OMEMO;

fn make_header(sid: u32) -> MessageHeader {
    MessageHeader {
        sid,
        keys: vec![
            MessageKey {
                rid: 100,
                prekey: true,
                data: vec![0xde, 0xad, 0xbe, 0xef],
            },
            MessageKey {
                rid: 200,
                prekey: false,
                data: vec![0xca, 0xfe, 0xba, 0xbe],
            },
        ],
        iv: vec![0x01; 12],
    }
}

// -----------------------------------------------------------------------
// Roundtrip: build → parse → equals original
// -----------------------------------------------------------------------

#[test]
fn roundtrip_with_payload() {
    let original = EncryptedMessage {
        header: make_header(12345),
        payload: Some(vec![0xab; 32]),
    };

    let message_el = build_encrypted_message("bob@example.com", 12345, &original);
    let parsed = parse_encrypted_message(&message_el)
        .expect("parse_encrypted_message must succeed");

    assert_eq!(parsed, original);
}

#[test]
fn roundtrip_key_transport_no_payload() {
    let original = EncryptedMessage {
        header: make_header(99),
        payload: None,
    };

    let message_el = build_encrypted_message("carol@example.com", 99, &original);
    let parsed = parse_encrypted_message(&message_el)
        .expect("parse_encrypted_message must succeed for key-transport");

    assert_eq!(parsed, original);
    assert!(is_key_transport(&parsed));
}

// -----------------------------------------------------------------------
// is_key_transport
// -----------------------------------------------------------------------

#[test]
fn is_key_transport_with_payload_returns_false() {
    let msg = EncryptedMessage {
        header: make_header(1),
        payload: Some(vec![1, 2, 3]),
    };
    assert!(!is_key_transport(&msg));
}

#[test]
fn is_key_transport_without_payload_returns_true() {
    let msg = EncryptedMessage {
        header: make_header(1),
        payload: None,
    };
    assert!(is_key_transport(&msg));
}

// -----------------------------------------------------------------------
// Multiple recipients
// -----------------------------------------------------------------------

#[test]
fn roundtrip_multiple_recipients() {
    let original = EncryptedMessage {
        header: MessageHeader {
            sid: 42,
            keys: vec![
                MessageKey { rid: 1, prekey: true, data: vec![0x01, 0x02] },
                MessageKey { rid: 2, prekey: false, data: vec![0x03, 0x04] },
                MessageKey { rid: 3, prekey: true, data: vec![0x05, 0x06] },
            ],
            iv: vec![0xff; 12],
        },
        payload: Some(vec![0x10, 0x20, 0x30]),
    };

    let el = build_encrypted_message("group@conference.example.com", 42, &original);
    let parsed = parse_encrypted_message(&el).expect("must parse");
    assert_eq!(parsed, original);
    assert_eq!(parsed.header.keys.len(), 3);
}

// -----------------------------------------------------------------------
// build_key_transport helper
// -----------------------------------------------------------------------

#[test]
fn build_key_transport_produces_no_payload() {
    let header = make_header(77);
    let el = build_key_transport("dave@example.com", 77, &header);
    let parsed = parse_encrypted_message(&el).expect("must parse");
    assert!(is_key_transport(&parsed));
    assert_eq!(parsed.header, header);
}

// -----------------------------------------------------------------------
// Structural checks
// -----------------------------------------------------------------------

#[test]
fn message_element_has_correct_attributes() {
    let msg = EncryptedMessage {
        header: make_header(1),
        payload: None,
    };
    let el = build_encrypted_message("target@example.com", 1, &msg);
    assert_eq!(el.name(), "message");
    assert_eq!(el.attr("to"), Some("target@example.com"));
    assert_eq!(el.attr("type"), Some("chat"));
}

#[test]
fn encrypted_element_uses_correct_namespace() {
    let msg = EncryptedMessage {
        header: make_header(1),
        payload: None,
    };
    let el = build_encrypted_message("x@x.com", 1, &msg);
    let encrypted = el.get_child("encrypted", NS_OMEMO);
    assert!(encrypted.is_some(), "must have <encrypted> child in NS_OMEMO");
}

#[test]
fn prekey_flag_round_trips() {
    let original = EncryptedMessage {
        header: MessageHeader {
            sid: 1,
            keys: vec![
                MessageKey { rid: 10, prekey: true, data: vec![0xaa] },
                MessageKey { rid: 20, prekey: false, data: vec![0xbb] },
            ],
            iv: vec![0x00; 12],
        },
        payload: None,
    };

    let el = build_encrypted_message("x@x.com", 1, &original);
    let parsed = parse_encrypted_message(&el).unwrap();

    let prekey_true = parsed.header.keys.iter().find(|k| k.rid == 10).unwrap();
    let prekey_false = parsed.header.keys.iter().find(|k| k.rid == 20).unwrap();
    assert!(prekey_true.prekey);
    assert!(!prekey_false.prekey);
}

// -----------------------------------------------------------------------
// Parse bare <encrypted> element (not wrapped in <message>)
// -----------------------------------------------------------------------

#[test]
fn parse_bare_encrypted_element() {
    let original = EncryptedMessage {
        header: make_header(55),
        payload: Some(vec![0x99; 8]),
    };
    let message_el = build_encrypted_message("x@x.com", 55, &original);
    // Extract the <encrypted> child and parse it directly.
    let encrypted_el = message_el
        .get_child("encrypted", NS_OMEMO)
        .expect("must have encrypted child");
    let parsed = parse_encrypted_message(encrypted_el).expect("must parse bare encrypted");
    assert_eq!(parsed, original);
}

#[test]
fn key_without_rid_makes_the_message_unreadable() {
    let msg = EncryptedMessage { header: make_header(5), payload: None };
    let mut el = build_encrypted_message("x@x.com", 5, &msg);
    let enc = el.children.iter_mut().find(|c| c.name == "encrypted").unwrap();
    let header = enc.children.iter_mut().find(|c| c.name == "header").unwrap();
    header.children[0].attrs.retain(|(k, _)| k != "rid");
    assert!(parse_encrypted_message(&el).is_none());
}

#[test]
fn invalid_payload_base64_reads_as_key_transport() {
    let msg = EncryptedMessage { header: make_header(6), payload: Some(vec![1, 2, 3]) };
    let mut el = build_encrypted_message("x@x.com", 6, &msg);
    let enc = el.children.iter_mut().find(|c| c.name == "encrypted").unwrap();
    let payload = enc.children.iter_mut().find(|c| c.name == "payload").unwrap();
    payload.text = "***".to_string();
    let parsed = parse_encrypted_message(&el).unwrap();
    assert!(is_key_transport(&parsed));
}
