//! OMEMO sessions (XEP-0384): Olm accounts and sessions from `vodozemac`,
//! and the AES-256-GCM encryption of message bodies from `aes-gcm`.
//!
//! The Olm ratchet carries, per recipient device, the 32-byte AES key with
//! which the body itself is sealed.
use vstd::prelude::*;
use vstd::utf8::{decode_utf8, encode_utf8, valid_utf8};
use aes_gcm::aead::{Aead, KeyInit, OsRng};
use aes_gcm::{Aes256Gcm, Key, Nonce};
use rand::RngCore;
use vodozemac::olm::{Account, AccountPickle, InboundCreationResult, OlmMessage, PreKeyMessage, SessionConfig, SessionPickle};
use vodozemac::Curve25519PublicKey;

verus! {

broadcast use vstd::utf8::encode_utf8_valid_utf8, vstd::utf8::encode_utf8_decode_utf8;

/// Length of the AES-256-GCM key, in bytes.
pub const AES_KEY_LEN: usize = 32;

/// Length of the AES-256-GCM nonce, in bytes.
pub const AES_NONCE_LEN: usize = 12;

/// Length of the AES-256-GCM authentication tag, in bytes.
pub const AES_TAG_LEN: usize = 16;

/// The longest plaintext AES-GCM seals, in bytes (2^36).
pub const AES_PLAINTEXT_MAX: u64 = 68719476736;

#[verifier::external_type_specification]
#[verifier::external_body]
pub struct ExAccount(Account);

#[verifier::external_type_specification]
#[verifier::external_body]
pub struct ExSession(vodozemac::olm::Session);

#[verifier::external_type_specification]
#[verifier::external_body]
pub struct ExCurve25519PublicKey(Curve25519PublicKey);

#[verifier::external_type_specification]
#[verifier::external_body]
pub struct ExOlmMessage(OlmMessage);

#[verifier::external_type_specification]
#[verifier::external_body]
pub struct ExPreKeyMessage(PreKeyMessage);

#[verifier::external_type_specification]
#[verifier::external_body]
pub struct ExInboundCreationResult(InboundCreationResult);

/// Why an OMEMO cryptographic operation failed.
#[derive(Debug, Clone, Copy, PartialEq, Eq, Structural)]
pub enum OmemoCryptoError {
    /// The AES key does not have 32 bytes; it had this many.
    InvalidKeyLength(usize),
    /// The AES nonce does not have 12 bytes; it had this many.
    InvalidNonceLength(usize),
    /// The plaintext is too long for AES-GCM.
    Encrypt,
    /// The ciphertext does not authenticate under the key and nonce.
    Decrypt,
    /// The decrypted body is not UTF-8.
    Utf8,
    /// An account or session could not be serialised.
    Pickle,
    /// Stored bytes are not a serialised account or session.
    Unpickle,
    /// The Olm session could not be created.
    SessionCreation,
    /// The Olm ratchet could not encrypt.
    OlmEncrypt,
    /// The Olm ratchet could not decrypt.
    OlmDecrypt,
}

/// Whether `bytes` are the JSON of an account pickle.
pub uninterp spec fn account_unpickles(bytes: Seq<u8>) -> bool;

/// Whether `bytes` are the JSON of a session pickle.
pub uninterp spec fn session_unpickles(bytes: Seq<u8>) -> bool;

/// Whether `bytes` encode an Olm pre-key message.
pub uninterp spec fn prekey_message_decodes(bytes: Seq<u8>) -> bool;

/// Whether `bytes` encode a normal Olm message.
pub uninterp spec fn normal_message_decodes(bytes: Seq<u8>) -> bool;

/// What the pre-key message encoded by `message` opens to with the account
/// pickled in `account_pickle`: its plaintext, the JSON of the new session's
/// pickle and the JSON of the account's pickle once the one-time key used
/// has left it; nothing where one of these steps fails.
pub uninterp spec fn inbound_opened(account_pickle: Seq<u8>, message: Seq<u8>) -> Option<(Seq<u8>, Seq<u8>, Seq<u8>)>;

/// The unpublished one-time keys of an account: each key id with the 32
/// bytes of its public key.
pub uninterp spec fn unpublished_keys(account: Account) -> Map<u64, Seq<u8>>;

/// The AES-256-GCM sealing of `plaintext` under `key` and `nonce`, without
/// associated data: the ciphertext followed by the 16-byte tag.
pub uninterp spec fn aes_gcm_sealed(key: Seq<u8>, nonce: Seq<u8>, plaintext: Seq<u8>) -> Seq<u8>;

/// `aes_gcm::Aes256Gcm::encrypt` (through `aead::Aead`) with an empty
/// associated data. The crate refuses plaintexts longer than 2^36 bytes and
/// otherwise returns a vector (so of at most half the address space) that
/// appends the 16-byte tag to the counter-mode ciphertext; since
/// counter mode is a bijection on the body, no other plaintext seals to the
/// same bytes under the same key and nonce.
#[verifier::external_body]
fn aes_gcm_seal(key: &[u8], nonce: &[u8], plaintext: &[u8]) -> (r: Option<Vec<u8>>)
    requires
        key@.len() == AES_KEY_LEN,
        nonce@.len() == AES_NONCE_LEN,
    ensures
        (r is Some) == (plaintext@.len() <= AES_PLAINTEXT_MAX),
        r matches Some(c) ==> {
            &&& c@ == aes_gcm_sealed(key@, nonce@, plaintext@)
            &&& c@.len() == plaintext@.len() + AES_TAG_LEN
            &&& c@.len() <= usize::MAX / 2
            &&& forall|q: Seq<u8>|
                q.len() <= AES_PLAINTEXT_MAX && #[trigger] aes_gcm_sealed(key@, nonce@, q) == c@ ==> q == plaintext@
        },
{
    Aes256Gcm::new(Key::<Aes256Gcm>::from_slice(key)).encrypt(Nonce::from_slice(nonce), plaintext).ok()
}

/// `aes_gcm::Aes256Gcm::decrypt` (through `aead::Aead`) with an empty
/// associated data. The crate strips the 16-byte tag, recomputes it over the
/// body and, when it matches, undoes the counter mode: what was sealed opens
/// to its plaintext, and what opens reseals to the same bytes.
#[verifier::external_body]
fn aes_gcm_open(key: &[u8], nonce: &[u8], ciphertext: &[u8]) -> (r: Option<Vec<u8>>)
    requires
        key@.len() == AES_KEY_LEN,
        nonce@.len() == AES_NONCE_LEN,
    ensures
        r is None ==> forall|p: Seq<u8>|
            p.len() <= AES_PLAINTEXT_MAX ==> #[trigger] aes_gcm_sealed(key@, nonce@, p) != ciphertext@,
        r matches Some(v) ==> forall|p: Seq<u8>|
            p.len() <= AES_PLAINTEXT_MAX && #[trigger] aes_gcm_sealed(key@, nonce@, p) == ciphertext@ ==> v@ == p,
        r matches Some(v) ==> v@.len() + AES_TAG_LEN == ciphertext@.len() && (v@.len() <= AES_PLAINTEXT_MAX ==> aes_gcm_sealed(
            key@,
            nonce@,
            v@,
        ) == ciphertext@),
{
    Aes256Gcm::new(Key::<Aes256Gcm>::from_slice(key)).decrypt(Nonce::from_slice(nonce), ciphertext).ok()
}

/// `n` bytes from the operating system's random source
/// (`rand::RngCore::fill_bytes` on `aead::OsRng`). Only the length is
/// stated; the bytes are random. The crate panics where the system source
/// fails, which nothing here can rule out.
#[verifier::external_body]
fn random_bytes(n: usize) -> (r: Vec<u8>)
    ensures
        r@.len() == n,
{
    let mut v = vec![0u8; n];
    OsRng.fill_bytes(&mut v);
    v
}

/// `String::from_utf8`: the text when the bytes are UTF-8.
#[verifier::external_body]
fn utf8_text(bytes: Vec<u8>) -> (r: Option<String>)
    ensures
        (r is Some) == valid_utf8(bytes@),
        r matches Some(s) ==> s@ == decode_utf8(bytes@),
{
    String::from_utf8(bytes).ok()
}

/// The two parts of an Olm message as OMEMO sends them: whether it is a
/// pre-key message (`OlmMessage::PreKey`), and its bytes (`to_bytes` of the
/// inner message).
/// The bytes are a vector's, so they fit in half the address space.
#[verifier::external_body]
pub(crate) fn olm_message_parts(m: &OlmMessage) -> (r: (bool, Vec<u8>))
    ensures
        r.1@.len() <= usize::MAX / 2,
{
    match m {
        OlmMessage::PreKey(pk) => (true, pk.to_bytes()),
        OlmMessage::Normal(nm) => (false, nm.to_bytes()),
    }
}

/// `PreKeyMessage::from_bytes`: the pre-key message the bytes encode,
/// which depends on the bytes alone.
#[verifier::external_body]
pub(crate) fn prekey_message_from_bytes(data: &[u8]) -> (r: Option<PreKeyMessage>)
    ensures
        (r is Some) == prekey_message_decodes(data@),
{
    PreKeyMessage::from_bytes(data).ok()
}

/// `olm::Message::from_bytes`, as a normal `OlmMessage`; whether it
/// decodes depends on the bytes alone.
#[verifier::external_body]
pub(crate) fn normal_message_from_bytes(data: &[u8]) -> (r: Option<OlmMessage>)
    ensures
        (r is Some) == normal_message_decodes(data@),
{
    match vodozemac::olm::Message::from_bytes(data) {
        Ok(m) => Some(OlmMessage::Normal(m)),
        Err(_) => None,
    }
}

/// `PreKeyMessage::identity_key`: the sender's identity key.
#[verifier::external_body]
pub(crate) fn prekey_sender_key(m: &PreKeyMessage) -> Curve25519PublicKey {
    m.identity_key()
}

/// Opens a pre-key message with a pickled account, as an incoming session
/// starts: the account is restored from its JSON (`serde_json::from_slice`,
/// `Account::from_pickle`), the message decoded (`PreKeyMessage::from_bytes`),
/// `Account::create_inbound_session` (Olm version 2, with the message's own
/// identity key) makes the session and yields the plaintext, and the session
/// and account are pickled back to JSON. Every step is a function of the
/// bytes handed in: the crate draws no random value here and its pickles
/// hold no hash maps. Any failing step gives `None`; the first two fail
/// exactly where the bytes do not unpickle or decode.
#[verifier::external_body]
pub(crate) fn open_prekey_message(account_pickle: &[u8], message: &[u8]) -> (r: Option<(Vec<u8>, Vec<u8>, Vec<u8>)>)
    ensures
        r matches Some(t) ==> inbound_opened(account_pickle@, message@) == Some((t.0@, t.1@, t.2@)),
        r is None ==> inbound_opened(account_pickle@, message@) is None,
        r is Some ==> account_unpickles(account_pickle@) && prekey_message_decodes(message@),
{
    let mut account = Account::from_pickle(serde_json::from_slice::<AccountPickle>(account_pickle).ok()?);
    let pre = PreKeyMessage::from_bytes(message).ok()?;
    let created = account.create_inbound_session(SessionConfig::version_2(), pre.identity_key(), &pre).ok()?;
    let session = serde_json::to_vec(&created.session.pickle()).ok()?;
    let account = serde_json::to_vec(&account.pickle()).ok()?;
    Some((created.plaintext, session, account))
}

/// `Account::generate_one_time_keys`: `count` new unpublished one-time keys,
/// each stored under the next key id. The account keeps at most 5000
/// one-time keys and, at that limit, discards the stored key with the
/// smallest id before adding one; where stored ids lie above the new ones
/// (as a pickle may have them) keys of this very batch can be discarded.
/// What holds in every case is that the last new key stays unpublished.
#[verifier::external_body]
pub(crate) fn generate_one_time_keys(account: &mut Account, count: usize)
    ensures
        unpublished_keys(*final(account)).dom().finite(),
        count >= 1 ==> unpublished_keys(*final(account)).dom().len() >= 1,
{
    account.generate_one_time_keys(count);
}

/// The public bytes of each unpublished one-time key
/// (`Account::one_time_keys`, `Curve25519PublicKey::to_bytes`), in the
/// order the account's map yields them; each has 32 bytes. The map is
/// collected from the account's unpublished keys by id, one entry each.
#[verifier::external_body]
pub(crate) fn unpublished_one_time_keys(account: &Account) -> (r: Vec<Vec<u8>>)
    ensures
        forall|i: int| 0 <= i < r@.len() ==> (#[trigger] r@[i])@.len() == 32,
        r@.len() == unpublished_keys(*account).dom().len(),
        forall|i: int| #![trigger r@[i]] 0 <= i < r@.len() ==> exists|id: u64|
            #[trigger] unpublished_keys(*account).contains_key(id) && unpublished_keys(*account)[id] == r@[i]@,
{
    let mut out = Vec::new();
    for k in account.one_time_keys().values() {
        out.push(k.to_bytes().to_vec());
    }
    out
}

/// `Account::mark_keys_as_published`: no one-time key is unpublished after.
#[verifier::external_body]
pub(crate) fn mark_keys_as_published(account: &mut Account)
    ensures
        unpublished_keys(*final(account)).dom().is_empty(),
{
    account.mark_keys_as_published();
}

/// The 32 bytes of the account's Curve25519 identity key
/// (`identity_keys().curve25519.to_bytes()`).
#[verifier::external_body]
pub(crate) fn identity_key_bytes(account: &Account) -> (r: Vec<u8>)
    ensures
        r@.len() == 32,
{
    account.identity_keys().curve25519.to_bytes().to_vec()
}

/// The 64 bytes of the account's Ed25519 signature of `message`
/// (`Account::sign`, `Ed25519Signature::to_bytes`).
#[verifier::external_body]
pub(crate) fn sign_bytes(account: &Account, message: &[u8]) -> (r: Vec<u8>)
    ensures
        r@.len() == 64,
{
    account.sign(message).to_bytes().to_vec()
}

/// A body sealed for OMEMO: the ciphertext with its tag, the nonce, and the
/// key to hand to each recipient device through Olm.
#[derive(Debug, Clone)]
pub struct EncryptedPayload {
    pub ciphertext: Vec<u8>,
    pub nonce: Vec<u8>,
    pub key: Vec<u8>,
}

/// `c` is the sealing of `plain` under a well-formed `key` and `nonce`, and
/// of nothing else.
pub open spec fn seals(key: Seq<u8>, nonce: Seq<u8>, c: Seq<u8>, plain: Seq<u8>) -> bool {
    &&& key.len() == AES_KEY_LEN
    &&& nonce.len() == AES_NONCE_LEN
    &&& plain.len() <= AES_PLAINTEXT_MAX
    &&& c == aes_gcm_sealed(key, nonce, plain)
    &&& forall|q: Seq<u8>| q.len() <= AES_PLAINTEXT_MAX && #[trigger] aes_gcm_sealed(key, nonce, q) == c ==> q == plain
}

/// The text, or the error, that decrypting `c` under `key` and `nonce`
/// gives: length errors first; then the body that `c` seals, decoded as
/// UTF-8; `Decrypt` when `c` seals no body. Nothing is said of a `c` longer
/// than the longest sealing that seals no body.
pub open spec fn payload_outcome(key: Seq<u8>, nonce: Seq<u8>, c: Seq<u8>) -> Option<Result<Seq<char>, OmemoCryptoError>> {
    if key.len() != AES_KEY_LEN {
        Some(Err(OmemoCryptoError::InvalidKeyLength(key.len() as usize)))
    } else if nonce.len() != AES_NONCE_LEN {
        Some(Err(OmemoCryptoError::InvalidNonceLength(nonce.len() as usize)))
    } else if exists|p: Seq<u8>| p.len() <= AES_PLAINTEXT_MAX && #[trigger] aes_gcm_sealed(key, nonce, p) == c {
        let p = choose|p: Seq<u8>| p.len() <= AES_PLAINTEXT_MAX && #[trigger] aes_gcm_sealed(key, nonce, p) == c;
        Some(
            if valid_utf8(p) {
                Ok(decode_utf8(p))
            } else {
                Err(OmemoCryptoError::Utf8)
            },
        )
    } else if c.len() <= AES_PLAINTEXT_MAX + AES_TAG_LEN {
        Some(Err(OmemoCryptoError::Decrypt))
    } else {
        None
    }
}

pub open spec fn text_result(r: Result<String, OmemoCryptoError>) -> Result<Seq<char>, OmemoCryptoError> {
    match r {
        Ok(s) => Ok(s@),
        Err(e) => Err(e),
    }
}

/// Olm accounts and sessions, and the payload encryption of OMEMO. It holds
/// no state: accounts and sessions are handed in and out.
#[derive(Debug)]
pub struct OmemoSessionManager;

impl OmemoSessionManager {
    pub fn new() -> (r: Self) {
        OmemoSessionManager
    }

    /// A new Olm account (`vodozemac::olm::Account::new`) with
    /// `one_time_key_count` unpublished one-time keys
    /// (`Account::generate_one_time_keys`). The keys are random: nothing is
    /// stated of them.
    #[verifier::external_body]
    pub fn init_account(one_time_key_count: usize) -> Account {
        let mut account = Account::new();
        account.generate_one_time_keys(one_time_key_count);
        account
    }

    /// The JSON of the account's pickle (`Account::pickle`, then
    /// `serde_json::to_vec`). The pickle holds only derived structures,
    /// integers, byte strings and maps keyed by a `u64` newtype, which
    /// `serde_json` writes into a vector without error; `Pickle` would be a
    /// serialisation failure.
    #[verifier::external_body]
    pub fn pickle_account(account: &Account) -> (r: Result<Vec<u8>, OmemoCryptoError>)
        ensures
            r is Ok,
            r matches Err(e) ==> e == OmemoCryptoError::Pickle,
    {
        match serde_json::to_vec(&account.pickle()) {
            Ok(b) => Ok(b),
            Err(_) => Err(OmemoCryptoError::Pickle),
        }
    }

    /// The account that pickled JSON describes (`serde_json::from_slice`
    /// into an `AccountPickle`, then `Account::from_pickle`); bytes that do
    /// not parse are `Unpickle`. `Account::from_pickle` cannot fail, so
    /// success depends on the bytes alone.
    #[verifier::external_body]
    pub fn unpickle_account(bytes: &[u8]) -> (r: Result<Account, OmemoCryptoError>)
        ensures
            (r is Ok) == account_unpickles(bytes@),
            r matches Err(e) ==> e == OmemoCryptoError::Unpickle,
    {
        match serde_json::from_slice::<AccountPickle>(bytes) {
            Ok(p) => Ok(Account::from_pickle(p)),
            Err(_) => Err(OmemoCryptoError::Unpickle),
        }
    }

    /// A session started by us (`Account::create_outbound_session`, Olm
    /// version 2) with the peer's identity key and one of its one-time keys;
    /// a key the crate refuses is `SessionCreation`.
    #[verifier::external_body]
    pub fn create_outbound_session(
        account: &Account,
        their_identity_key: Curve25519PublicKey,
        their_one_time_key: Curve25519PublicKey,
    ) -> (r: Result<vodozemac::olm::Session, OmemoCryptoError>)
        ensures
            r matches Err(e) ==> e == OmemoCryptoError::SessionCreation,
    {
        match account.create_outbound_session(SessionConfig::version_2(), their_identity_key, their_one_time_key) {
            Ok(s) => Ok(s),
            Err(_) => Err(OmemoCryptoError::SessionCreation),
        }
    }

    /// The session a peer started with a pre-key message, with the plaintext
    /// it carried (`Account::create_inbound_session`, Olm version 2); the
    /// one-time key it used leaves the account. A refused message is
    /// `SessionCreation`.
    #[verifier::external_body]
    pub fn create_inbound_session(
        account: &mut Account,
        their_identity_key: Curve25519PublicKey,
        pre_key_message: &PreKeyMessage,
    ) -> (r: Result<InboundCreationResult, OmemoCryptoError>)
        ensures
            r matches Err(e) ==> e == OmemoCryptoError::SessionCreation,
    {
        match account.create_inbound_session(SessionConfig::version_2(), their_identity_key, pre_key_message) {
            Ok(c) => Ok(c),
            Err(_) => Err(OmemoCryptoError::SessionCreation),
        }
    }

    /// The JSON of the session's pickle (`Session::pickle`, then
    /// `serde_json::to_vec`); a serialisation failure is `Pickle`.
    #[verifier::external_body]
    pub fn pickle_session(session: &vodozemac::olm::Session) -> (r: Result<Vec<u8>, OmemoCryptoError>)
        ensures
            r matches Err(e) ==> e == OmemoCryptoError::Pickle,
    {
        match serde_json::to_vec(&session.pickle()) {
            Ok(b) => Ok(b),
            Err(_) => Err(OmemoCryptoError::Pickle),
        }
    }

    /// The session that pickled JSON describes (`serde_json::from_slice`
    /// into a `SessionPickle`, then `Session::from_pickle`); bytes that do
    /// not parse are `Unpickle`. `Session::from_pickle` cannot fail, so
    /// success depends on the bytes alone.
    #[verifier::external_body]
    pub fn unpickle_session(bytes: &[u8]) -> (r: Result<vodozemac::olm::Session, OmemoCryptoError>)
        ensures
            (r is Ok) == session_unpickles(bytes@),
            r matches Err(e) ==> e == OmemoCryptoError::Unpickle,
    {
        match serde_json::from_slice::<SessionPickle>(bytes) {
            Ok(p) => Ok(vodozemac::olm::Session::from_pickle(p)),
            Err(_) => Err(OmemoCryptoError::Unpickle),
        }
    }

    /// `plaintext` through the session's ratchet (`Session::encrypt`): a
    /// pre-key message until the peer has answered, a normal one after. A
    /// refusal of the crate is `OlmEncrypt`.
    #[verifier::external_body]
    pub fn encrypt(session: &mut vodozemac::olm::Session, plaintext: &[u8]) -> (r: Result<OlmMessage, OmemoCryptoError>)
        ensures
            r matches Err(e) ==> e == OmemoCryptoError::OlmEncrypt,
    {
        match session.encrypt(plaintext) {
            Ok(m) => Ok(m),
            Err(_) => Err(OmemoCryptoError::OlmEncrypt),
        }
    }

    /// The plaintext of a message through the session's ratchet
    /// (`Session::decrypt`); a message it cannot open is `OlmDecrypt`.
    /// Nothing names the plaintext: where the message carries a ratchet key
    /// the session has no chain for and our own ratchet is inactive, the
    /// crate first activates it with a freshly drawn random ratchet key, so
    /// the outcome is not a function of the session and message alone.
    #[verifier::external_body]
    pub fn decrypt(session: &mut vodozemac::olm::Session, ciphertext: &OlmMessage) -> (r: Result<Vec<u8>, OmemoCryptoError>)
        ensures
            r matches Err(e) ==> e == OmemoCryptoError::OlmDecrypt,
    {
        match session.decrypt(ciphertext) {
            Ok(p) => Ok(p),
            Err(_) => Err(OmemoCryptoError::OlmDecrypt),
        }
    }

    /// Seals `plaintext` under a fresh random key and nonce. A payload comes
    /// back for every text AES-GCM accepts, and it is the sealing of the
    /// text and of nothing else.
    pub fn encrypt_payload(plaintext: &str) -> (r: Result<EncryptedPayload, OmemoCryptoError>)
        ensures
            (r is Ok) == (encode_utf8(plaintext@).len() <= AES_PLAINTEXT_MAX),
            r matches Err(e) ==> e == OmemoCryptoError::Encrypt,
            r matches Ok(p) ==> seals(p.key@, p.nonce@, p.ciphertext@, encode_utf8(plaintext@)),
            r matches Ok(p) ==> p.ciphertext@.len() == encode_utf8(plaintext@).len() + AES_TAG_LEN,
            r matches Ok(p) ==> p.ciphertext@.len() <= usize::MAX / 2,
    {
        let key = random_bytes(AES_KEY_LEN);
        let nonce = random_bytes(AES_NONCE_LEN);
        match aes_gcm_seal(key.as_slice(), nonce.as_slice(), plaintext.as_bytes()) {
            Some(ciphertext) => Ok(EncryptedPayload { ciphertext, nonce, key }),
            None => Err(OmemoCryptoError::Encrypt),
        }
    }

    /// The text sealed in `ciphertext` under `key` and `nonce`.
    pub fn decrypt_payload(key: &[u8], nonce: &[u8], ciphertext: &[u8]) -> (r: Result<String, OmemoCryptoError>)
        ensures
            payload_outcome(key@, nonce@, ciphertext@) matches Some(o) ==> text_result(r) == o,
            key@.len() != AES_KEY_LEN ==> r == Err::<String, OmemoCryptoError>(OmemoCryptoError::InvalidKeyLength(key@.len() as usize)),
    {
        if key.len() != AES_KEY_LEN {
            return Err(OmemoCryptoError::InvalidKeyLength(key.len()));
        }
        if nonce.len() != AES_NONCE_LEN {
            return Err(OmemoCryptoError::InvalidNonceLength(nonce.len()));
        }
        let opened = aes_gcm_open(key, nonce, ciphertext);
        proof {
            if exists|p: Seq<u8>| p.len() <= AES_PLAINTEXT_MAX && #[trigger] aes_gcm_sealed(key@, nonce@, p) == ciphertext@ {
                let p = choose|p: Seq<u8>| p.len() <= AES_PLAINTEXT_MAX && #[trigger] aes_gcm_sealed(key@, nonce@, p) == ciphertext@;
                assert(opened matches Some(v) && v@ == p);
            }
        }
        match opened {
            None => Err(OmemoCryptoError::Decrypt),
            Some(bytes) => match utf8_text(bytes) {
                Some(s) => Ok(s),
                None => Err(OmemoCryptoError::Utf8),
            },
        }
    }
}

/// A payload sealed from a text decrypts back to that text.
pub proof fn law_payload_roundtrip(key: Seq<u8>, nonce: Seq<u8>, c: Seq<u8>, text: Seq<char>)
    requires
        seals(key, nonce, c, encode_utf8(text)),
    ensures
        payload_outcome(key, nonce, c) == Some(Ok::<Seq<char>, OmemoCryptoError>(text)),
{
    let b = encode_utf8(text);
    assert(b.len() <= AES_PLAINTEXT_MAX && aes_gcm_sealed(key, nonce, b) == c);
    let p = choose|p: Seq<u8>| p.len() <= AES_PLAINTEXT_MAX && #[trigger] aes_gcm_sealed(key, nonce, p) == c;
    assert(p == b);
}

} // verus!
