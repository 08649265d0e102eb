use std::collections::HashSet;

use aes_gcm::aead::OsRng;
use rand::RngCore;
use rexisce::xmpp::modules::omemo::session::{
    OmemoCryptoError, OmemoSessionManager, AES_KEY_LEN, AES_NONCE_LEN, AES_TAG_LEN,
};
use vodozemac::olm::OlmMessage;

#[test]
fn init_account_generates_keys() {
    let account = OmemoSessionManager::init_account(10);
    let keys = account.identity_keys();
    assert_ne!(*keys.ed25519.as_bytes(), [0u8; 32]);
    assert_ne!(*keys.curve25519.as_bytes(), [0u8; 32]);
    let otks = account.one_time_keys();
    assert!(!otks.is_empty());
}

#[test]
fn account_pickle_roundtrip() {
    let account = OmemoSessionManager::init_account(5);
    let original_ik = account.identity_keys();

    let bytes = OmemoSessionManager::pickle_account(&account).unwrap();
    let restored = OmemoSessionManager::unpickle_account(&bytes).unwrap();

    assert_eq!(restored.identity_keys().ed25519, original_ik.ed25519);
    assert_eq!(restored.identity_keys().curve25519, original_ik.curve25519);
}

#[test]
fn outbound_session_created() {
    let alice = OmemoSessionManager::init_account(0);
    let mut bob = OmemoSessionManager::init_account(1);
    let bob_otk = *bob.one_time_keys().values().next().unwrap();
    bob.mark_keys_as_published();

    let _session = OmemoSessionManager::create_outbound_session(&alice, bob.curve25519_key(), bob_otk).unwrap();
}

#[test]
fn inbound_session_created_from_prekey_message() {
    let alice = OmemoSessionManager::init_account(0);
    let mut bob = OmemoSessionManager::init_account(1);
    let bob_otk = *bob.one_time_keys().values().next().unwrap();
    bob.mark_keys_as_published();

    let mut alice_session =
        OmemoSessionManager::create_outbound_session(&alice, bob.curve25519_key(), bob_otk).unwrap();

    let aes_key = b"this-is-a-32-byte-aes-key-123456";
    let olm_msg = OmemoSessionManager::encrypt(&mut alice_session, aes_key).unwrap();

    if let OlmMessage::PreKey(ref pre_key_msg) = olm_msg {
        let result =
            OmemoSessionManager::create_inbound_session(&mut bob, alice.curve25519_key(), pre_key_msg).unwrap();
        assert_eq!(result.plaintext, aes_key);
    } else {
        panic!("first message should be a PreKey message");
    }
}

#[test]
fn olm_encrypt_decrypt_roundtrip() {
    let alice = OmemoSessionManager::init_account(0);
    let mut bob = OmemoSessionManager::init_account(1);
    let bob_otk = *bob.one_time_keys().values().next().unwrap();
    bob.mark_keys_as_published();

    let mut alice_session =
        OmemoSessionManager::create_outbound_session(&alice, bob.curve25519_key(), bob_otk).unwrap();

    let original_key = b"hello-world-32-byte-aes-key-1234";
    let olm_msg = OmemoSessionManager::encrypt(&mut alice_session, original_key).unwrap();

    if let OlmMessage::PreKey(ref pre_key_msg) = olm_msg {
        let result =
            OmemoSessionManager::create_inbound_session(&mut bob, alice.curve25519_key(), pre_key_msg).unwrap();

        assert_eq!(&result.plaintext, original_key);

        let mut bob_session = result.session;

        let reply_key = b"bob-reply-key-32-bytes-xyzxyzxyz";
        let bob_msg = OmemoSessionManager::encrypt(&mut bob_session, reply_key).unwrap();

        let decrypted = OmemoSessionManager::decrypt(&mut alice_session, &bob_msg).unwrap();
        assert_eq!(&decrypted, reply_key);
    } else {
        panic!("expected PreKey message");
    }
}

#[test]
fn session_pickle_roundtrip() {
    let alice = OmemoSessionManager::init_account(0);
    let mut bob = OmemoSessionManager::init_account(1);
    let bob_otk = *bob.one_time_keys().values().next().unwrap();
    bob.mark_keys_as_published();

    let session = OmemoSessionManager::create_outbound_session(&alice, bob.curve25519_key(), bob_otk).unwrap();

    let original_id = session.session_id();
    let bytes = OmemoSessionManager::pickle_session(&session).unwrap();
    let restored = OmemoSessionManager::unpickle_session(&bytes).unwrap();

    assert_eq!(restored.session_id(), original_id);
}

#[test]
fn aes_gcm_encrypt_decrypt_roundtrip() {
    let plaintext = "Hello, OMEMO world!";
    let payload = OmemoSessionManager::encrypt_payload(plaintext).unwrap();

    assert_eq!(payload.key.len(), AES_KEY_LEN);
    assert_eq!(payload.nonce.len(), AES_NONCE_LEN);
    assert_eq!(payload.ciphertext.len(), plaintext.len() + AES_TAG_LEN);

    let decrypted =
        OmemoSessionManager::decrypt_payload(&payload.key, &payload.nonce, &payload.ciphertext).unwrap();

    assert_eq!(decrypted, plaintext);
}

#[test]
fn aes_gcm_different_keys_fail() {
    let plaintext = "secret message";
    let payload = OmemoSessionManager::encrypt_payload(plaintext).unwrap();

    let mut bad_key = payload.key.clone();
    bad_key[0] ^= 0xFF;

    let result = OmemoSessionManager::decrypt_payload(&bad_key, &payload.nonce, &payload.ciphertext);
    assert!(result.is_err());
}

#[test]
fn aes_gcm_invalid_key_length_rejected() {
    let result = OmemoSessionManager::decrypt_payload(b"short", b"123456789012", b"ct");
    assert!(result.is_err());
}

#[test]
fn aes_gcm_invalid_nonce_length_rejected() {
    let key = vec![0u8; AES_KEY_LEN];
    let result = OmemoSessionManager::decrypt_payload(&key, b"short", b"ct");
    assert!(result.is_err());
}

#[test]
fn aes_gcm_two_plaintexts_produce_different_ciphertexts() {
    let p1 = OmemoSessionManager::encrypt_payload("message one").unwrap();
    let p2 = OmemoSessionManager::encrypt_payload("message one").unwrap();
    assert_ne!(p1.nonce, p2.nonce);
    assert_ne!(p1.ciphertext, p2.ciphertext);
}

#[test]
fn encrypt_decrypt_roundtrip() {
    let plaintext = "known plaintext for roundtrip test";
    let payload = OmemoSessionManager::encrypt_payload(plaintext).unwrap();

    let decrypted =
        OmemoSessionManager::decrypt_payload(&payload.key, &payload.nonce, &payload.ciphertext).unwrap();

    assert_eq!(decrypted, plaintext);
}

#[test]
fn decrypt_with_wrong_key_fails() {
    let plaintext = "secret payload";
    let payload = OmemoSessionManager::encrypt_payload(plaintext).unwrap();

    let mut wrong_key = vec![0u8; AES_KEY_LEN];
    OsRng.fill_bytes(&mut wrong_key);
    assert_ne!(wrong_key, payload.key);

    let result = OmemoSessionManager::decrypt_payload(&wrong_key, &payload.nonce, &payload.ciphertext);
    assert!(result.is_err(), "decryption with a wrong key must fail");
}

#[test]
fn decrypt_with_wrong_nonce_fails() {
    let plaintext = "secret payload";
    let payload = OmemoSessionManager::encrypt_payload(plaintext).unwrap();

    let mut wrong_nonce = vec![0u8; AES_NONCE_LEN];
    OsRng.fill_bytes(&mut wrong_nonce);
    assert_ne!(wrong_nonce, payload.nonce);

    let result = OmemoSessionManager::decrypt_payload(&payload.key, &wrong_nonce, &payload.ciphertext);
    assert!(result.is_err(), "decryption with the correct key but wrong nonce must fail");
}

#[test]
fn encrypt_payload_nonces_are_unique_across_many_calls() {
    const SAMPLE_SIZE: usize = 100;
    let mut nonces: HashSet<Vec<u8>> = HashSet::with_capacity(SAMPLE_SIZE);

    for i in 0..SAMPLE_SIZE {
        let plaintext = format!("test message {i}");
        let payload = OmemoSessionManager::encrypt_payload(&plaintext).expect("encrypt_payload should not fail");

        assert_eq!(payload.nonce.len(), AES_NONCE_LEN, "nonce at call {i} has wrong length");

        let is_new = nonces.insert(payload.nonce.clone());
        assert!(is_new, "nonce collision detected at call {i}: nonce {:?} was already produced", payload.nonce);
    }
}

#[test]
fn length_errors_carry_the_length_seen() {
    assert_eq!(
        OmemoSessionManager::decrypt_payload(b"short", b"123456789012", b"ct"),
        Err(OmemoCryptoError::InvalidKeyLength(5))
    );
    let key = vec![0u8; AES_KEY_LEN];
    assert_eq!(OmemoSessionManager::decrypt_payload(&key, b"short", b"ct"), Err(OmemoCryptoError::InvalidNonceLength(5)));
    assert_eq!(
        OmemoSessionManager::decrypt_payload(&key, b"123456789012", b"ct"),
        Err(OmemoCryptoError::Decrypt)
    );
}

#[test]
fn empty_text_roundtrips_and_carries_only_the_tag() {
    let payload = OmemoSessionManager::encrypt_payload("").unwrap();
    assert_eq!(payload.ciphertext.len(), AES_TAG_LEN);
    assert_eq!(OmemoSessionManager::decrypt_payload(&payload.key, &payload.nonce, &payload.ciphertext), Ok(String::new()));
}
