use std::collections::VecDeque;

use rexisce::util::xml::Element;
use rexisce::xmpp::handlers::omemo::{
    after_encrypt, omemo_check_prekey_rotation, omemo_encrypt_and_send, omemo_finish_decrypt, omemo_key_slot, omemo_try_decrypt, OmemoDecryptError,
    OmemoEncryptError, PeerDevice,
};
use rexisce::xmpp::modules::omemo::bundle::{parse_bundle, OmemoManager};
use rexisce::xmpp::modules::omemo::session::OmemoSessionManager;
use rexisce::xmpp::XmppEvent;

fn bundle_of(publish: &Element) -> Element {
    let pubsub = &publish.children()[0];
    let publ = &pubsub.children()[0];
    let item = &publ.children()[0];
    item.children()[0].duplicate()
}

#[test]
fn no_encryptable_device_asks_for_the_device_list() {
    let devices = vec![PeerDevice { device_id: 5, encryptable: false, session: None }];
    let r = omemo_encrypt_and_send(1, "bob@example.com", "hi", &devices);
    assert!(matches!(r, Err(OmemoEncryptError::NoTrustedDevices)));

    let mut mgr = OmemoManager::new();
    let mut outbox = VecDeque::new();
    let (events, sessions) = after_encrypt(r, "bob@example.com", &mut mgr, &mut outbox);
    assert!(sessions.is_empty());
    assert!(matches!(&events[..], [XmppEvent::OmemoKeyExchangeNeeded { jid }] if jid == "bob@example.com"));
    assert_eq!(outbox.len(), 1);
    let id = outbox[0].attr("id").unwrap().to_string();
    assert_eq!(mgr.take_device_list_fetch(&id), Some("bob@example.com".to_string()));
}

#[test]
fn devices_without_sessions_get_their_bundles_fetched() {
    let devices = vec![
        PeerDevice { device_id: 5, encryptable: true, session: None },
        PeerDevice { device_id: 6, encryptable: false, session: None },
        PeerDevice { device_id: 7, encryptable: true, session: None },
    ];
    let r = omemo_encrypt_and_send(1, "bob@example.com", "hi", &devices);
    match &r {
        Err(OmemoEncryptError::NoSessions { device_ids }) => assert_eq!(device_ids, &vec![5, 7]),
        other => panic!("unexpected {other:?}"),
    }
    let mut mgr = OmemoManager::new();
    let mut outbox = VecDeque::new();
    let (events, _) = after_encrypt(r, "bob@example.com", &mut mgr, &mut outbox);
    assert_eq!(events.len(), 1);
    assert_eq!(outbox.len(), 2);
    let first = outbox[0].attr("id").unwrap().to_string();
    let second = outbox[1].attr("id").unwrap().to_string();
    assert_eq!(mgr.take_bundle_fetch(&first), Some(("bob@example.com".to_string(), 5)));
    assert_eq!(mgr.take_bundle_fetch(&second), Some(("bob@example.com".to_string(), 7)));
}

#[test]
fn sealed_message_opens_on_the_recipient_device() {
    let alice = OmemoSessionManager::init_account(0);
    let mut bob = OmemoSessionManager::init_account(1);
    let bob_otk = *bob.one_time_keys().values().next().unwrap();
    bob.mark_keys_as_published();
    let bob_pickle = OmemoSessionManager::pickle_account(&bob).unwrap();
    let session = OmemoSessionManager::create_outbound_session(&alice, bob.curve25519_key(), bob_otk).unwrap();
    let pickled = OmemoSessionManager::pickle_session(&session).unwrap();

    let devices = vec![PeerDevice { device_id: 7, encryptable: true, session: Some(pickled) }];
    let sealed = omemo_encrypt_and_send(11, "bob@example.com", "secret words", &devices).expect("sealed");
    assert_eq!(sealed.sessions.len(), 1);
    assert_eq!(sealed.sessions[0].0, 7);

    let incoming = sealed.stanza.duplicate().with_attr("from", "alice@example.com/laptop");
    let slot = omemo_key_slot(&incoming, 7).expect("key for device 7");
    assert_eq!(slot.sender_jid, "alice@example.com");
    assert!(slot.key.prekey);
    assert_eq!(slot.message.header.sid, 11);
    let opened = omemo_try_decrypt(&slot, &bob_pickle, None).expect("opened");
    assert_eq!(opened.body.as_deref(), Some("secret words"));
    assert!(opened.account.is_some());

    assert!(matches!(omemo_key_slot(&incoming, 8), Err(OmemoDecryptError::NoKeySlot(8))));
}

#[test]
fn normal_message_without_session_is_refused() {
    let alice = OmemoSessionManager::init_account(0);
    let mut bob = OmemoSessionManager::init_account(1);
    let bob_otk = *bob.one_time_keys().values().next().unwrap();
    bob.mark_keys_as_published();
    let session = OmemoSessionManager::create_outbound_session(&alice, bob.curve25519_key(), bob_otk).unwrap();
    let pickled = OmemoSessionManager::pickle_session(&session).unwrap();
    let devices = vec![PeerDevice { device_id: 7, encryptable: true, session: Some(pickled) }];
    let sealed = omemo_encrypt_and_send(11, "bob@example.com", "x", &devices).expect("sealed");
    let mut slot = omemo_key_slot(&sealed.stanza, 7).expect("slot");
    slot.key.prekey = false;
    assert!(matches!(omemo_try_decrypt(&slot, b"unused", None), Err(OmemoDecryptError::NoSession)));
}

#[test]
fn stanza_without_encrypted_element_is_unparsable() {
    let el = Element::new("message", "jabber:client");
    assert!(matches!(omemo_key_slot(&el, 1), Err(OmemoDecryptError::Unparsable)));
}

#[test]
fn enable_and_republish_publish_device_list_and_bundle() {
    let mut mgr = OmemoManager::new();
    let en = mgr.enable(4242).expect("enabled");
    assert_eq!(mgr.device_mgr().own_device_id(), 4242);
    assert_eq!(en.spk_id, 1);
    assert_eq!(en.signed_prekey.len(), 32);
    assert_eq!(en.prekeys.len(), 100);
    for (i, (id, key)) in en.prekeys.iter().enumerate() {
        assert_eq!(*id, i as u32 + 1);
        assert_eq!(key.len(), 32);
    }
    assert_eq!(en.stanzas.len(), 2);
    let bundle = parse_bundle(&bundle_of(&en.stanzas[1])).expect("bundle");
    assert_eq!(bundle.signed_pre_key, en.signed_prekey);
    assert_eq!(bundle.identity_key, en.signed_prekey);
    assert_eq!(bundle.pre_keys.len(), 100);

    let mut other = OmemoManager::new();
    let again = other
        .republish_stanzas(4242, &en.identity_key, &en.signed_prekey, en.spk_id, &en.prekeys[..10])
        .expect("republished");
    assert_eq!(again.len(), 2);
    let bundle = parse_bundle(&bundle_of(&again[1])).expect("bundle");
    assert_eq!(bundle.identity_key, en.signed_prekey);
    assert_eq!(bundle.pre_keys, en.prekeys[..10].to_vec());
    assert!(other.republish_stanzas(1, b"not a pickle", &en.signed_prekey, 1, &[]).is_err());
}

#[test]
fn prekeys_are_replenished_below_the_watermark_only() {
    let mut mgr = OmemoManager::new();
    let en = mgr.enable(2).expect("enabled");
    assert!(omemo_check_prekey_rotation(20, 2, &en.identity_key, &en.signed_prekey, 1).is_none());
    let rot = omemo_check_prekey_rotation(19, 2, &en.identity_key, &en.signed_prekey, 1).expect("rotation");
    assert!(!rot.prekeys.is_empty());
    for (i, (id, _)) in rot.prekeys.iter().enumerate() {
        assert_eq!(*id, 2_000_000 + i as u32 + 1);
    }
    let bundle = parse_bundle(&bundle_of(&rot.publish)).expect("bundle");
    assert_eq!(bundle.pre_keys.len(), rot.prekeys.len());
    assert!(omemo_check_prekey_rotation(0, 2, b"not a pickle", &en.signed_prekey, 1).is_none());
}

#[test]
fn undecodable_prekey_message_is_reported_as_such() {
    let alice = OmemoSessionManager::init_account(0);
    let mut bob = OmemoSessionManager::init_account(1);
    let bob_otk = *bob.one_time_keys().values().next().unwrap();
    bob.mark_keys_as_published();
    let bob_pickle = OmemoSessionManager::pickle_account(&bob).unwrap();
    let session = OmemoSessionManager::create_outbound_session(&alice, bob.curve25519_key(), bob_otk).unwrap();
    let pickled = OmemoSessionManager::pickle_session(&session).unwrap();
    let devices = vec![PeerDevice { device_id: 7, encryptable: true, session: Some(pickled) }];
    let sealed = omemo_encrypt_and_send(11, "bob@example.com", "x", &devices).expect("sealed");
    let mut slot = omemo_key_slot(&sealed.stanza, 7).expect("slot");
    slot.key.data = vec![1, 2, 3];
    assert!(matches!(omemo_try_decrypt(&slot, &bob_pickle, None), Err(OmemoDecryptError::BadPreKeyMessage)));
    slot.key.prekey = false;
    assert!(matches!(omemo_try_decrypt(&slot, &bob_pickle, Some(b"{}")), Err(OmemoDecryptError::Crypto(_))));
}

#[test]
fn rotation_publishes_a_full_batch_for_a_fresh_account() {
    let mut mgr = OmemoManager::new();
    let en = mgr.enable(3).expect("enabled");
    let rot = omemo_check_prekey_rotation(0, 3, &en.identity_key, &en.signed_prekey, 1).expect("rotation");
    assert_eq!(rot.prekeys.len(), 50);
}

#[test]
fn finishing_without_payload_returns_the_olm_state() {
    let alice = OmemoSessionManager::init_account(0);
    let mut bob = OmemoSessionManager::init_account(1);
    let bob_otk = *bob.one_time_keys().values().next().unwrap();
    bob.mark_keys_as_published();
    let session = OmemoSessionManager::create_outbound_session(&alice, bob.curve25519_key(), bob_otk).unwrap();
    let pickled = OmemoSessionManager::pickle_session(&session).unwrap();
    let devices = vec![PeerDevice { device_id: 7, encryptable: true, session: Some(pickled) }];
    let sealed = omemo_encrypt_and_send(11, "bob@example.com", "x", &devices).expect("sealed");
    let slot = omemo_key_slot(&sealed.stanza, 7).expect("slot");
    let mut message = slot.message.clone();
    message.payload = None;
    let done = omemo_finish_decrypt(&message, vec![1; 32], vec![9, 8], Some(vec![7])).expect("finished");
    assert!(done.body.is_none());
    assert_eq!(done.session, vec![9, 8]);
    assert_eq!(done.account, Some(vec![7]));
    let bad = omemo_finish_decrypt(&slot.message, vec![1; 32], vec![9, 8], None);
    assert!(matches!(bad, Err(OmemoDecryptError::Crypto(_))));
}
