//! The OMEMO steps of the engine between loads from and saves to the key
//! store: sealing a message for a peer's devices, opening a message sent to
//! our device, and replenishing our one-time pre-keys. The engine loads what
//! each step takes and stores what it returns.
use vstd::prelude::*;
use std::collections::VecDeque;
use crate::util::ext::is_uuid_v4_text;
use crate::util::strs::{before_first, before_first_char, dec_str};
use crate::util::xml::{Element, ElementView};
use crate::xmpp::modules::omemo::device::{OMEMO_BUNDLE_NODE_PREFIX, OMEMO_DEVICES_NODE, items_fetch};
use crate::xmpp::modules::omemo::bundle::{OmemoBundle, OmemoBundleView, OmemoManager, build_bundle_publish, bundle_publish, bundle_published, prekeys_view};
use crate::xmpp::modules::omemo::message::{
    EncryptedMessage, EncryptedMessageView, MessageHeader, MessageHeaderView, MessageKey, MessageKeyView, build_encrypted_message,
    message_elem, parse_encrypted_message, parsed_message,
};
use crate::xmpp::modules::omemo::session::{
    AES_KEY_LEN, AES_PLAINTEXT_MAX, OmemoCryptoError, OmemoSessionManager, generate_one_time_keys, identity_key_bytes,
    inbound_opened, mark_keys_as_published, normal_message_from_bytes, account_unpickles, session_unpickles,
    prekey_message_decodes, normal_message_decodes, olm_message_parts, open_prekey_message, payload_outcome,
    prekey_message_from_bytes, prekey_sender_key, seals, sign_bytes, unpublished_one_time_keys,
};
use super::message::attr_or_empty;
use crate::xmpp::{XmppEvent, XmppEventView, views};
use vstd::utf8::encode_utf8;

verus! {

/// A device of the peer as the key store knows it: whether its trust allows
/// encrypting to it, and its pickled Olm session, if one was established.
#[derive(Debug)]
pub struct PeerDevice {
    pub device_id: u32,
    pub encryptable: bool,
    pub session: Option<Vec<u8>>,
}

pub struct PeerDeviceView {
    pub device_id: u32,
    pub encryptable: bool,
    pub session: Option<Seq<u8>>,
}

impl View for PeerDevice {
    type V = PeerDeviceView;

    open spec fn view(&self) -> PeerDeviceView {
        PeerDeviceView {
            device_id: self.device_id,
            encryptable: self.encryptable,
            session: match &self.session {
                Some(b) => Some(b@),
                None => None,
            },
        }
    }
}

/// Why a message could not be sealed.
#[derive(Debug, Clone)]
pub enum OmemoEncryptError {
    /// No device of the peer may be encrypted to: its device list is needed.
    NoTrustedDevices,
    /// Devices may be encrypted to, but none has a session yet: their
    /// bundles are needed.
    NoSessions { device_ids: Vec<u32> },
    /// A cryptographic step failed.
    Crypto(OmemoCryptoError),
}

/// A sealed message, and the advanced session of each device it was
/// sealed for, to be stored.
#[derive(Debug)]
pub struct SealedMessage {
    pub stanza: Element,
    pub sessions: Vec<(u32, Vec<u8>)>,
}

/// The ids of the devices that pass `keep`, in order.
pub open spec fn ids_where(ds: Seq<PeerDeviceView>, keep: spec_fn(PeerDeviceView) -> bool) -> Seq<u32>
    decreases ds.len(),
{
    if ds.len() == 0 {
        Seq::empty()
    } else {
        let rest = ids_where(ds.drop_last(), keep);
        if keep(ds.last()) {
            rest.push(ds.last().device_id)
        } else {
            rest
        }
    }
}

pub open spec fn encryptable() -> spec_fn(PeerDeviceView) -> bool {
    |d: PeerDeviceView| d.encryptable
}

pub open spec fn with_session() -> spec_fn(PeerDeviceView) -> bool {
    |d: PeerDeviceView| d.encryptable && d.session is Some
}

pub open spec fn without_session() -> spec_fn(PeerDeviceView) -> bool {
    |d: PeerDeviceView| d.encryptable && d.session is None
}

pub open spec fn key_rids(ks: Seq<MessageKeyView>) -> Seq<u32> {
    ks.map_values(|k: MessageKeyView| k.rid)
}

pub open spec fn saved_ids(s: Seq<(u32, Vec<u8>)>) -> Seq<u32> {
    s.map_values(|p: (u32, Vec<u8>)| p.0)
}

/// The stanza is the message to `to` from our device `sid`, with one key
/// per device of `rids`, in order, and the payload that seals `body` and
/// nothing else.
pub open spec fn sealed_stanza(st: ElementView, to: Seq<char>, sid: u32, rids: Seq<u32>, body: Seq<char>) -> bool {
    exists|key: Seq<u8>, nonce: Seq<u8>, c: Seq<u8>, ks: Seq<MessageKeyView>|
        {
            &&& #[trigger] seals(key, nonce, c, encode_utf8(body))
            &&& #[trigger] key_rids(ks) == rids
            &&& st == message_elem(to, EncryptedMessageView { header: MessageHeaderView { sid, keys: ks, iv: nonce }, payload: Some(c) })
        }
}

proof fn lemma_ids_step(ds: Seq<PeerDeviceView>, i: int, keep: spec_fn(PeerDeviceView) -> bool)
    requires
        0 <= i < ds.len(),
    ensures
        ids_where(ds.take(i + 1), keep) == if keep(ds[i]) {
            ids_where(ds.take(i), keep).push(ds[i].device_id)
        } else {
            ids_where(ds.take(i), keep)
        },
{
    assert(ds.take(i + 1).drop_last() =~= ds.take(i));
}

proof fn lemma_ids_prefix(ds: Seq<PeerDeviceView>, i: int, keep: spec_fn(PeerDeviceView) -> bool)
    requires
        0 <= i <= ds.len(),
    ensures
        ids_where(ds.take(i), keep).len() <= ids_where(ds, keep).len(),
    decreases ds.len() - i,
{
    if i == ds.len() {
        assert(ds.take(i) =~= ds);
    } else {
        lemma_ids_step(ds, i, keep);
        lemma_ids_prefix(ds, i + 1, keep);
    }
}

proof fn lemma_ids_partition(ds: Seq<PeerDeviceView>)
    ensures
        ids_where(ds, encryptable()).len() == ids_where(ds, with_session()).len() + ids_where(ds, without_session()).len(),
    decreases ds.len(),
{
    if ds.len() > 0 {
        lemma_ids_partition(ds.drop_last());
    }
}

/// Seals `body` for the devices of the peer `to`: under a fresh AES key,
/// itself sent through the Olm session of each device that may be
/// encrypted to and has one. The outcome is the stanza with the advanced
/// sessions; `NoTrustedDevices` where no device may be encrypted to;
/// `NoSessions` with those devices where none of them has a session.
pub fn omemo_encrypt_and_send(own_device_id: u32, to: &str, body: &str, devices: &[PeerDevice]) -> (r: Result<SealedMessage, OmemoEncryptError>)
    ensures
        (r matches Err(OmemoEncryptError::NoTrustedDevices)) <==> ids_where(views(devices@), encryptable()).len() == 0,
        ids_where(views(devices@), encryptable()).len() > 0 && ids_where(views(devices@), with_session()).len() == 0
            && encode_utf8(body@).len() <= AES_PLAINTEXT_MAX ==> r matches Err(OmemoEncryptError::NoSessions { device_ids }),
        ids_where(views(devices@), encryptable()).len() > 0 && encode_utf8(body@).len() > AES_PLAINTEXT_MAX ==> (r matches Err(
            OmemoEncryptError::Crypto(e)) && e == OmemoCryptoError::Encrypt),
        r matches Err(OmemoEncryptError::NoSessions { device_ids }) ==> device_ids@ == ids_where(views(devices@), without_session())
            && ids_where(views(devices@), with_session()).len() == 0,
        r matches Ok(m) ==> sealed_stanza(m.stanza@, to@, own_device_id, ids_where(views(devices@), with_session()), body@)
            && saved_ids(m.sessions@) == ids_where(views(devices@), with_session()),
{
    let ghost dv = views(devices@);
    let mut any = false;
    let mut i: usize = 0;
    while i < devices.len()
        invariant
            i <= devices@.len(),
            dv == views(devices@),
            any == (ids_where(dv.take(i as int), encryptable()).len() > 0),
        decreases devices@.len() - i,
    {
        proof {
            lemma_ids_step(dv, i as int, encryptable());
        }
        if devices[i].encryptable {
            any = true;
        }
        i += 1;
    }
    assert(dv.take(devices@.len() as int) =~= dv);
    if !any {
        return Err(OmemoEncryptError::NoTrustedDevices);
    }
    let enc = match OmemoSessionManager::encrypt_payload(body) {
        Ok(p) => p,
        Err(e) => return Err(OmemoEncryptError::Crypto(e)),
    };
    let mut keys: Vec<MessageKey> = Vec::new();
    let mut saved: Vec<(u32, Vec<u8>)> = Vec::new();
    let mut missing: Vec<u32> = Vec::new();
    let mut j: usize = 0;
    while j < devices.len()
        invariant
            j <= devices@.len(),
            dv == views(devices@),
            ids_where(dv, encryptable()).len() > 0,
            encode_utf8(body@).len() <= AES_PLAINTEXT_MAX,
            key_rids(keys@.map_values(|k: MessageKey| k@)) == ids_where(dv.take(j as int), with_session()),
            saved_ids(saved@) == ids_where(dv.take(j as int), with_session()),
            missing@ == ids_where(dv.take(j as int), without_session()),
            forall|k: int| 0 <= k < keys@.len() ==> (#[trigger] keys@[k]).data@.len() <= usize::MAX / 2,
        decreases devices@.len() - j,
    {
        proof {
            lemma_ids_step(dv, j as int, with_session());
            lemma_ids_step(dv, j as int, without_session());
        }
        let d = &devices[j];
        if d.encryptable {
            match &d.session {
                None => {
                    missing.push(d.device_id);
                },
                Some(bytes) => {
                    proof {
                        lemma_ids_prefix(dv, j + 1, with_session());
                    }
                    let mut session = match OmemoSessionManager::unpickle_session(bytes.as_slice()) {
                        Ok(s) => s,
                        Err(e) => return Err(OmemoEncryptError::Crypto(e)),
                    };
                    let olm = match OmemoSessionManager::encrypt(&mut session, enc.key.as_slice()) {
                        Ok(m) => m,
                        Err(e) => return Err(OmemoEncryptError::Crypto(e)),
                    };
                    let pickled = match OmemoSessionManager::pickle_session(&session) {
                        Ok(b) => b,
                        Err(e) => return Err(OmemoEncryptError::Crypto(e)),
                    };
                    let (prekey, data) = olm_message_parts(&olm);
                    let ghost k0 = keys@;
                    keys.push(MessageKey { rid: d.device_id, prekey, data });
                    assert(keys@.map_values(|k: MessageKey| k@) =~= k0.map_values(|k: MessageKey| k@).push(keys@.last()@));
                    let ghost s0 = saved@;
                    saved.push((d.device_id, pickled));
                    assert(saved_ids(saved@) =~= saved_ids(s0).push(d.device_id));
                },
            }
        }
        j += 1;
    }
    assert(dv.take(devices@.len() as int) =~= dv);
    proof {
        lemma_ids_partition(dv);
    }
    if keys.len() == 0 {
        if missing.len() > 0 {
            return Err(OmemoEncryptError::NoSessions { device_ids: missing });
        }
        return Err(OmemoEncryptError::NoTrustedDevices);
    }
    let ghost kv = keys@.map_values(|k: MessageKey| k@);
    let header = MessageHeader { sid: own_device_id, keys, iv: enc.nonce };
    let msg = EncryptedMessage { header, payload: Some(enc.ciphertext) };
    let stanza = build_encrypted_message(to, own_device_id, &msg);
    assert(seals(enc.key@, enc.nonce@, enc.ciphertext@, encode_utf8(body@)));
    assert(key_rids(kv) == ids_where(dv, with_session()));
    Ok(SealedMessage { stanza, sessions: saved })
}

/// The node of the bundle of device `device_id`.
pub open spec fn bundle_node(device_id: u32) -> Seq<char> {
    OMEMO_BUNDLE_NODE_PREFIX@ + "/"@ + dec_str(device_id as nat)
}

/// `m` with the bundle fetch `ids[k]` of device `devs[k]` of `to` recorded,
/// for each `k` in order.
pub open spec fn with_fetches(
    m: Map<Seq<char>, (Seq<char>, u32)>,
    ids: Seq<Seq<char>>,
    to: Seq<char>,
    devs: Seq<u32>,
) -> Map<Seq<char>, (Seq<char>, u32)>
    decreases ids.len(),
{
    if ids.len() == 0 || devs.len() == 0 {
        m
    } else {
        with_fetches(m, ids.drop_last(), to, devs.drop_last()).insert(ids.last(), (to, devs.last()))
    }
}

/// The bundle fetches of `devs` of `to` under `ids`, in order.
pub open spec fn bundle_fetch_stanzas(ids: Seq<Seq<char>>, to: Seq<char>, devs: Seq<u32>) -> Seq<ElementView> {
    Seq::new(ids.len(), |k: int| items_fetch(ids[k], to, bundle_node(devs[k])))
}

/// What the engine does with the outcome of sealing a message to `to`: the
/// sealed message goes out, and its advanced sessions come back to be
/// stored; devices without a session get their bundles fetched, each fetch
/// tracked, and where no device may be encrypted to, the device list is
/// fetched and tracked; both report that a key exchange is needed. A failed
/// cryptographic step changes nothing.
pub fn after_encrypt(
    result: Result<SealedMessage, OmemoEncryptError>,
    to: &str,
    mgr: &mut OmemoManager,
    outbox: &mut VecDeque<Element>,
) -> (r: (Vec<XmppEvent>, Vec<(u32, Vec<u8>)>))
    ensures
        final(mgr).device_id() == old(mgr).device_id(),
        match result {
            Ok(m) => {
                &&& views(final(outbox)@) == views(old(outbox)@).push(m.stanza@)
                &&& r.0@.len() == 0
                &&& r.1@ == m.sessions@
                &&& final(mgr).bundle_fetches() == old(mgr).bundle_fetches()
                &&& final(mgr).device_list_fetches() == old(mgr).device_list_fetches()
            },
            Err(OmemoEncryptError::NoSessions { device_ids }) => {
                &&& views(r.0@) == seq![XmppEventView::OmemoKeyExchangeNeeded { jid: to@ }]
                &&& r.1@.len() == 0
                &&& final(mgr).device_list_fetches() == old(mgr).device_list_fetches()
                &&& exists|ids: Seq<Seq<char>>|
                    {
                        &&& ids.len() == device_ids@.len()
                        &&& forall|k: int| 0 <= k < ids.len() ==> is_uuid_v4_text(#[trigger] ids[k])
                        &&& views(final(outbox)@) == views(old(outbox)@) + bundle_fetch_stanzas(ids, to@, device_ids@)
                        &&& final(mgr).bundle_fetches() == #[trigger] with_fetches(old(mgr).bundle_fetches(), ids, to@, device_ids@)
                    }
            },
            Err(OmemoEncryptError::NoTrustedDevices) => {
                &&& views(r.0@) == seq![XmppEventView::OmemoKeyExchangeNeeded { jid: to@ }]
                &&& r.1@.len() == 0
                &&& final(mgr).bundle_fetches() == old(mgr).bundle_fetches()
                &&& exists|id: Seq<char>|
                    {
                        &&& #[trigger] is_uuid_v4_text(id)
                        &&& views(final(outbox)@) == views(old(outbox)@).push(items_fetch(id, to@, OMEMO_DEVICES_NODE@))
                        &&& final(mgr).device_list_fetches() == old(mgr).device_list_fetches().insert(id, to@)
                    }
            },
            Err(OmemoEncryptError::Crypto(_)) => {
                &&& final(outbox)@ == old(outbox)@
                &&& r.0@.len() == 0
                &&& r.1@.len() == 0
                &&& final(mgr).bundle_fetches() == old(mgr).bundle_fetches()
                &&& final(mgr).device_list_fetches() == old(mgr).device_list_fetches()
            },
        },
{
    let ghost o0 = views(outbox@);
    match result {
        Ok(m) => {
            let ghost sv = m.stanza@;
            outbox.push_back(m.stanza);
            assert(views(outbox@) =~= o0.push(sv));
            (Vec::new(), m.sessions)
        },
        Err(OmemoEncryptError::NoSessions { device_ids }) => {
            let ghost b0 = mgr.bundle_fetches();
            let ghost mut ids: Seq<Seq<char>> = Seq::empty();
            let mut i: usize = 0;
            while i < device_ids.len()
                invariant
                    i <= device_ids@.len(),
                    ids.len() == i,
                    forall|k: int| 0 <= k < ids.len() ==> is_uuid_v4_text(#[trigger] ids[k]),
                    views(outbox@) == o0 + bundle_fetch_stanzas(ids, to@, device_ids@.take(i as int)),
                    mgr.bundle_fetches() == with_fetches(b0, ids, to@, device_ids@.take(i as int)),
                    mgr.device_list_fetches() == old(mgr).device_list_fetches(),
                    mgr.device_id() == old(mgr).device_id(),
                decreases device_ids@.len() - i,
            {
                let dev = device_ids[i];
                let (iq_id, iq) = mgr.device_mgr().build_bundle_fetch(to, dev);
                let ghost idv = iq_id@;
                let ghost ev = iq@;
                let ghost before = views(outbox@);
                mgr.track_bundle_fetch(iq_id, to.to_owned(), dev);
                outbox.push_back(iq);
                proof {
                    let ids1 = ids.push(idv);
                    let t1 = device_ids@.take(i + 1);
                    assert(t1.drop_last() =~= device_ids@.take(i as int));
                    assert(ids1.drop_last() =~= ids);
                    assert(views(outbox@) =~= before.push(ev));
                    assert(bundle_fetch_stanzas(ids1, to@, t1) =~= bundle_fetch_stanzas(ids, to@, device_ids@.take(i as int)).push(ev));
                    assert(views(outbox@) =~= o0 + bundle_fetch_stanzas(ids1, to@, t1));
                    ids = ids1;
                }
                i += 1;
            }
            proof {
                assert(device_ids@.take(device_ids@.len() as int) =~= device_ids@);
            }
            (crate::xmpp::handlers::message::one(XmppEvent::OmemoKeyExchangeNeeded { jid: to.to_owned() }), Vec::new())
        },
        Err(OmemoEncryptError::NoTrustedDevices) => {
            let (iq_id, iq) = mgr.device_mgr().build_device_list_fetch(to);
            let ghost ev = iq@;
            mgr.track_device_list_fetch(iq_id, to.to_owned());
            outbox.push_back(iq);
            assert(views(outbox@) =~= o0.push(ev));
            (crate::xmpp::handlers::message::one(XmppEvent::OmemoKeyExchangeNeeded { jid: to.to_owned() }), Vec::new())
        },
        Err(OmemoEncryptError::Crypto(_)) => (Vec::new(), Vec::new()),
    }
}

/// Why a message sent to us could not be opened.
#[derive(Debug, Clone, Copy, PartialEq, Eq, Structural)]
pub enum OmemoDecryptError {
    /// The stanza holds no valid encrypted message.
    Unparsable,
    /// No key of the message is addressed to our device, whose id this is.
    NoKeySlot(u32),
    /// A normal message came from a device we have no session with.
    NoSession,
    /// The key is marked as a pre-key message but does not decode as one.
    BadPreKeyMessage,
    /// The key does not decode as a normal Olm message.
    BadMessage,
    /// A cryptographic step failed.
    Crypto(OmemoCryptoError),
}

/// The part of an encrypted message that concerns our device: the message,
/// its key for us, and the bare address of the sender.
#[derive(Debug)]
pub struct KeySlot {
    pub message: EncryptedMessage,
    pub key: MessageKey,
    pub sender_jid: String,
}

/// The first key of `keys` addressed to device `rid`.
pub open spec fn key_for(keys: Seq<MessageKeyView>, rid: u32) -> Option<MessageKeyView>
    decreases keys.len(),
{
    if keys.len() == 0 {
        None
    } else {
        match key_for(keys.drop_last(), rid) {
            Some(k) => Some(k),
            None => if keys.last().rid == rid {
                Some(keys.last())
            } else {
                None
            },
        }
    }
}

/// Finds what an incoming encrypted message holds for our device
/// `own_device_id`.
pub fn omemo_key_slot(el: &Element, own_device_id: u32) -> (r: Result<KeySlot, OmemoDecryptError>)
    ensures
        match parsed_message(el@) {
            None => r matches Err(e) && e == OmemoDecryptError::Unparsable,
            Some(m) => match key_for(m.header.keys, own_device_id) {
                None => r matches Err(e) && e == OmemoDecryptError::NoKeySlot(own_device_id),
                Some(k) => r matches Ok(s) && s.message@ == m && s.key@ == k && s.sender_jid@ == before_first(
                    attr_or_empty(el@, "from"@),
                    '/',
                ),
            },
        },
{
    let m = match parse_encrypted_message(el) {
        Some(m) => m,
        None => return Err(OmemoDecryptError::Unparsable),
    };
    let ghost kv = m.header.keys@.map_values(|k: MessageKey| k@);
    let mut i: usize = 0;
    let mut found: Option<usize> = None;
    while found.is_none() && i < m.header.keys.len()
        invariant
            i <= m.header.keys@.len(),
            kv == m.header.keys@.map_values(|k: MessageKey| k@),
            found is None ==> key_for(kv.take(i as int), own_device_id) is None,
            found matches Some(j) ==> j < m.header.keys@.len() && key_for(kv, own_device_id) == Some(kv[j as int]),
        decreases m.header.keys@.len() - i + (if found is None { 1int } else { 0int }),
    {
        proof {
            assert(kv.take(i + 1).drop_last() =~= kv.take(i as int));
            assert(kv.take(i + 1).last() == kv[i as int]);
        }
        if m.header.keys[i].rid == own_device_id {
            proof {
                assert(kv[i as int].rid == own_device_id);
                assert(key_for(kv.take(i + 1), own_device_id) == Some(kv[i as int]));
                lemma_key_for_prefix(kv, (i + 1) as int, own_device_id);
            }
            found = Some(i);
        } else {
            i += 1;
        }
    }
    let j = match found {
        Some(j) => j,
        None => {
            assert(kv.take(kv.len() as int) =~= kv);
            return Err(OmemoDecryptError::NoKeySlot(own_device_id));
        },
    };
    let k = &m.header.keys[j];
    let key = MessageKey { rid: k.rid, prekey: k.prekey, data: k.data.clone() };
    let from = match el.attr("from") {
        Some(f) => f,
        None => "",
    };
    proof {
        reveal_strlit("");
    }
    let sender_jid = before_first_char(from, '/');
    Ok(KeySlot { message: m, key, sender_jid })
}

proof fn lemma_key_for_prefix(keys: Seq<MessageKeyView>, i: int, rid: u32)
    requires
        0 <= i <= keys.len(),
        key_for(keys.take(i), rid) is Some,
    ensures
        key_for(keys, rid) == key_for(keys.take(i), rid),
    decreases keys.len() - i,
{
    if i < keys.len() {
        assert(keys.take(i + 1).drop_last() =~= keys.take(i));
        lemma_key_for_prefix(keys, i + 1, rid);
    } else {
        assert(keys.take(i) =~= keys);
    }
}

/// An opened message: its text (none for a message that only transports
/// keys), the advanced session with the sender's device, and our account
/// where opening consumed one of its one-time keys; each to be stored.
#[derive(Debug)]
pub struct Decrypted {
    pub body: Option<String>,
    pub session: Vec<u8>,
    pub account: Option<Vec<u8>>,
}

/// `s` is what decrypting `c` under `key` and `nonce` gives, as far as the
/// outcome is determined.
pub open spec fn opens_to(key: Seq<u8>, nonce: Seq<u8>, c: Seq<u8>, s: Seq<char>) -> bool {
    payload_outcome(key, nonce, c) matches Some(o) ==> o == Ok::<Seq<char>, OmemoCryptoError>(s)
}

/// The value of a [`Decrypted`].
pub struct DecryptedView {
    pub body: Option<Seq<char>>,
    pub session: Seq<u8>,
    pub account: Option<Seq<u8>>,
}

pub open spec fn decrypted_result(r: Result<Decrypted, OmemoDecryptError>) -> Result<DecryptedView, OmemoDecryptError> {
    match r {
        Ok(d) => Ok(
            DecryptedView {
                body: match d.body {
                    Some(b) => Some(b@),
                    None => None,
                },
                session: d.session@,
                account: match d.account {
                    Some(a) => Some(a@),
                    None => None,
                },
            },
        ),
        Err(e) => Err(e),
    }
}

/// What opening the payload with the AES key `key` that Olm yielded gives,
/// with the session and account to store: no body without a payload, else
/// the text the payload opens to, or its error. Nothing where the payload
/// outcome itself is not determined.
pub open spec fn finish_outcome(
    payload: Option<Seq<u8>>,
    iv: Seq<u8>,
    key: Seq<u8>,
    session: Seq<u8>,
    account: Option<Seq<u8>>,
) -> Option<Result<DecryptedView, OmemoDecryptError>> {
    match payload {
        None => Some(Ok(DecryptedView { body: None, session, account })),
        Some(c) => match payload_outcome(key, iv, c) {
            Some(Ok(t)) => Some(Ok(DecryptedView { body: Some(t), session, account })),
            Some(Err(e)) => Some(Err(OmemoDecryptError::Crypto(e))),
            None => None,
        },
    }
}

/// The last step of opening a message for us: the AES key that Olm
/// yielded opens the payload of `message`, and the session and account
/// bytes come back to be stored.
pub fn omemo_finish_decrypt(message: &EncryptedMessage, key: Vec<u8>, session: Vec<u8>, account: Option<Vec<u8>>) -> (r: Result<
    Decrypted,
    OmemoDecryptError,
>)
    ensures
        finish_outcome(opt_bytes(message.payload), message.header.iv@, key@, session@, opt_bytes(account)) matches Some(o) ==> decrypted_result(r) == o,
        r matches Ok(d) ==> d.session@ == session@ && opt_bytes(d.account) == opt_bytes(account) && (d.body is Some) == (message.payload is Some),
        r matches Err(e) ==> e is Crypto,
        r matches Ok(d) ==> (d.body matches Some(b) ==> key@.len() == AES_KEY_LEN && opens_to(key@, message.header.iv@, message.payload->0@, b@)),
{
    let mut body: Option<String> = None;
    if let Some(c) = &message.payload {
        match OmemoSessionManager::decrypt_payload(key.as_slice(), message.header.iv.as_slice(), c.as_slice()) {
            Ok(text) => {
                proof {
                    if key@.len() != AES_KEY_LEN {
                        assert(false);
                    }
                }
                body = Some(text);
            },
            Err(e) => return Err(OmemoDecryptError::Crypto(e)),
        }
    }
    Ok(Decrypted { body, session, account })
}

pub open spec fn opt_bytes(o: Option<Vec<u8>>) -> Option<Seq<u8>> {
    match o {
        Some(v) => Some(v@),
        None => None,
    }
}

/// Opens the message of `slot` with our pickled account and, for a normal
/// message, the pickled session with the sender's device: a pre-key message
/// starts a new session (consuming one of our one-time keys), a normal one
/// advances the stored session; the AES key it carries then opens the
/// payload ([`omemo_finish_decrypt`]). For a pre-key message the outcome is
/// stated in full. For a normal message the stored session decides what
/// Olm yields, and its ratchet may draw a fresh random key while doing so;
/// what holds whatever it yields is stated.
pub fn omemo_try_decrypt(slot: &KeySlot, account_pickle: &[u8], session_pickle: Option<&[u8]>) -> (r: Result<Decrypted, OmemoDecryptError>)
    ensures
        slot.key.prekey && !account_unpickles(account_pickle@) ==> r == Err::<Decrypted, OmemoDecryptError>(
            OmemoDecryptError::Crypto(OmemoCryptoError::Unpickle),
        ),
        slot.key.prekey && account_unpickles(account_pickle@) && !prekey_message_decodes(slot.key.data@) ==> r == Err::<
            Decrypted,
            OmemoDecryptError,
        >(OmemoDecryptError::BadPreKeyMessage),
        slot.key.prekey && account_unpickles(account_pickle@) && prekey_message_decodes(slot.key.data@) && inbound_opened(
            account_pickle@,
            slot.key.data@,
        ) is None ==> (r matches Err(OmemoDecryptError::Crypto(e)) && (e == OmemoCryptoError::SessionCreation || e
            == OmemoCryptoError::Pickle)),
        slot.key.prekey ==> (inbound_opened(account_pickle@, slot.key.data@) matches Some(t) ==> (finish_outcome(
            opt_bytes(slot.message.payload),
            slot.message.header.iv@,
            t.0,
            t.1,
            Some(t.2),
        ) matches Some(o) ==> decrypted_result(r) == o)),
        (r matches Err(e) && e == OmemoDecryptError::NoSession) <==> (!slot.key.prekey && session_pickle is None),
        (!slot.key.prekey && (session_pickle matches Some(sp) && !session_unpickles(sp@))) ==> (r matches Err(e) && e
            == OmemoDecryptError::Crypto(OmemoCryptoError::Unpickle)),
        (r matches Err(e) && e == OmemoDecryptError::BadMessage) <==> (!slot.key.prekey && (session_pickle matches Some(sp)
            && session_unpickles(sp@)) && !normal_message_decodes(slot.key.data@)),
        r is Ok && !slot.key.prekey ==> (session_pickle matches Some(sp) && session_unpickles(sp@)) && normal_message_decodes(
            slot.key.data@,
        ),
        r matches Ok(d) ==> (d.account is Some) == slot.key.prekey && (d.body is Some) == (slot.message.payload is Some),
        r matches Ok(d) ==> (d.body matches Some(b) ==> exists|k: Seq<u8>|
            k.len() == AES_KEY_LEN && #[trigger] opens_to(k, slot.message.header.iv@, slot.message.payload->0@, b@)),
{
    if slot.key.prekey {
        match open_prekey_message(account_pickle, slot.key.data.as_slice()) {
            Some((key, session, account)) => {
                let ghost kv = key@;
                let r = omemo_finish_decrypt(&slot.message, key, session, Some(account));
                assert(r matches Ok(d) ==> (d.body matches Some(b) ==> kv.len() == AES_KEY_LEN && opens_to(kv, slot.message.header.iv@, slot.message.payload->0@, b@)));
                return r;
            },
            None => {
                // Find which step failed.
                let mut own = match OmemoSessionManager::unpickle_account(account_pickle) {
                    Ok(a) => a,
                    Err(e) => return Err(OmemoDecryptError::Crypto(e)),
                };
                let pre = match prekey_message_from_bytes(slot.key.data.as_slice()) {
                    Some(p) => p,
                    None => return Err(OmemoDecryptError::BadPreKeyMessage),
                };
                return match OmemoSessionManager::create_inbound_session(&mut own, prekey_sender_key(&pre), &pre) {
                    Err(e) => Err(OmemoDecryptError::Crypto(e)),
                    Ok(_) => Err(OmemoDecryptError::Crypto(OmemoCryptoError::Pickle)),
                };
            },
        }
    }
    let stored = match session_pickle {
        Some(b) => b,
        None => return Err(OmemoDecryptError::NoSession),
    };
    let mut sess = match OmemoSessionManager::unpickle_session(stored) {
        Ok(s) => s,
        Err(e) => return Err(OmemoDecryptError::Crypto(e)),
    };
    let msg = match normal_message_from_bytes(slot.key.data.as_slice()) {
        Some(m) => m,
        None => return Err(OmemoDecryptError::BadMessage),
    };
    let key = match OmemoSessionManager::decrypt(&mut sess, &msg) {
        Ok(k) => k,
        Err(e) => return Err(OmemoDecryptError::Crypto(e)),
    };
    let session = match OmemoSessionManager::pickle_session(&sess) {
        Ok(b) => b,
        Err(e) => return Err(OmemoDecryptError::Crypto(e)),
    };
    let ghost kv = key@;
    let r = omemo_finish_decrypt(&slot.message, key, session, None);
    assert(r matches Ok(d) ==> (d.body matches Some(b) ==> kv.len() == AES_KEY_LEN && opens_to(kv, slot.message.header.iv@, slot.message.payload->0@, b@)));
    r
}

/// Below this many unconsumed one-time pre-keys, a new batch is made.
pub const OMEMO_PREKEY_LOW_WATERMARK: u32 = 20;

/// How many one-time pre-keys a new batch has.
pub const OMEMO_PREKEY_BATCH_SIZE: usize = 50;

/// The id of the `i`-th new pre-key of device `device_id`: counted on from
/// the device id times a million, all modulo 2^32.
pub open spec fn prekey_id(device_id: u32, i: int) -> u32 {
    (((device_id as int * 1_000_000) % 0x1_0000_0000 + i % 0x1_0000_0000 + 1) % 0x1_0000_0000) as u32
}


/// A replenished pre-key stock: the account with its new keys marked
/// published, the new pre-keys with their ids, and the publish request of
/// the bundle that lists them; each to be stored or sent.
#[derive(Debug)]
pub struct PrekeyRotation {
    pub account: Vec<u8>,
    pub prekeys: Vec<(u32, Vec<u8>)>,
    pub publish: Element,
}

/// Replenishes our one-time pre-keys when fewer than the low watermark are
/// unconsumed: a new batch, numbered on from the device id times a million,
/// published in our bundle (for device `device_id`, with our signed pre-key
/// `signed_prekey` numbered `spk_id`, signed anew by the account). Nothing
/// happens at or above the watermark, or where the account does not
/// unpickle.
pub fn omemo_check_prekey_rotation(
    unconsumed: u32,
    device_id: u32,
    account_pickle: &[u8],
    signed_prekey: &[u8],
    spk_id: u32,
) -> (r: Option<PrekeyRotation>)
    requires
        signed_prekey@.len() <= usize::MAX / 2,
    ensures
        unconsumed >= OMEMO_PREKEY_LOW_WATERMARK ==> r is None,
        unconsumed < OMEMO_PREKEY_LOW_WATERMARK && account_unpickles(account_pickle@) ==> r is Some,
        r matches Some(rot) ==> {
            &&& unconsumed < OMEMO_PREKEY_LOW_WATERMARK
            &&& rot.prekeys@.len() >= 1
            &&& forall|i: int| 0 <= i < rot.prekeys@.len() ==> (#[trigger] rot.prekeys@[i]).0 == prekey_id(device_id, i) && rot.prekeys@[i].1@.len() == 32
            &&& bundle_published(rot.publish@, device_id, signed_prekey@, spk_id, prekeys_view(rot.prekeys@))
        },
{
    if unconsumed >= OMEMO_PREKEY_LOW_WATERMARK {
        return None;
    }
    let mut account = match OmemoSessionManager::unpickle_account(account_pickle) {
        Ok(a) => a,
        Err(_) => return None,
    };
    generate_one_time_keys(&mut account, OMEMO_PREKEY_BATCH_SIZE);
    let fresh = unpublished_one_time_keys(&account);
    let offset: u64 = (device_id as u64 * 1_000_000) % 0x1_0000_0000;
    let mut prekeys: Vec<(u32, Vec<u8>)> = Vec::new();
    let mut i: usize = 0;
    while i < fresh.len()
        invariant
            i <= fresh@.len(),
            offset == (device_id as int * 1_000_000) % 0x1_0000_0000,
            prekeys@.len() == i,
            forall|k: int| 0 <= k < fresh@.len() ==> (#[trigger] fresh@[k])@.len() == 32,
            forall|k: int| 0 <= k < i ==> (#[trigger] prekeys@[k]).0 == prekey_id(device_id, k) && prekeys@[k].1@.len() == 32,
        decreases fresh@.len() - i,
    {
        let low: u64 = (i as u64) % 0x1_0000_0000;
        let id: u32 = ((offset + low + 1) % 0x1_0000_0000) as u32;
        prekeys.push((id, vstd::slice::slice_to_vec(fresh[i].as_slice())));
        i += 1;
    }
    mark_keys_as_published(&mut account);
    let pickled = match OmemoSessionManager::pickle_account(&account) {
        Ok(b) => b,
        Err(_) => return None,
    };
    let ik = identity_key_bytes(&account);
    let sig = sign_bytes(&account, signed_prekey);
    let bundle = OmemoBundle {
        identity_key: ik,
        signed_pre_key: vstd::slice::slice_to_vec(signed_prekey),
        signed_pre_key_id: spk_id,
        signed_pre_key_signature: sig,
        pre_keys: prekeys,
    };
    assert(bundle@.pre_keys =~= prekeys_view(bundle.pre_keys@));
    let publish = build_bundle_publish(device_id, &bundle);
    proof {
        let id = choose|id: Seq<char>| is_uuid_v4_text(id) && publish@ == bundle_publish(id, device_id, bundle@);
        assert(bundle@ == OmemoBundleView {
            identity_key: bundle.identity_key@,
            signed_pre_key: signed_prekey@,
            signed_pre_key_id: spk_id,
            signed_pre_key_signature: bundle.signed_pre_key_signature@,
            pre_keys: prekeys_view(bundle.pre_keys@),
        });
        assert(is_uuid_v4_text(id) && bundle.identity_key@.len() == 32 && bundle.signed_pre_key_signature@.len() == 64);
        assert(publish@ == bundle_publish(
            id,
            device_id,
            OmemoBundleView {
                identity_key: bundle.identity_key@,
                signed_pre_key: signed_prekey@,
                signed_pre_key_id: spk_id,
                signed_pre_key_signature: bundle.signed_pre_key_signature@,
                pre_keys: prekeys_view(bundle.pre_keys@),
            },
        ));
    }
    let ghost ikv = bundle.identity_key@;
    let ghost sigv = bundle.signed_pre_key_signature@;
    let rot = PrekeyRotation { account: pickled, prekeys: bundle.pre_keys, publish };
    proof {
        let id = choose|id: Seq<char>| is_uuid_v4_text(id) && rot.publish@ == bundle_publish(
            id,
            device_id,
            OmemoBundleView {
                identity_key: ikv,
                signed_pre_key: signed_prekey@,
                signed_pre_key_id: spk_id,
                signed_pre_key_signature: sigv,
                pre_keys: prekeys_view(rot.prekeys@),
            },
        );
        assert(is_uuid_v4_text(id) && ikv.len() == 32 && sigv.len() == 64 && rot.publish@ == bundle_publish(
            id,
            device_id,
            OmemoBundleView {
                identity_key: ikv,
                signed_pre_key: signed_prekey@,
                signed_pre_key_id: spk_id,
                signed_pre_key_signature: sigv,
                pre_keys: prekeys_view(rot.prekeys@),
            },
        ));
        assert(bundle_published(rot.publish@, device_id, signed_prekey@, spk_id, prekeys_view(rot.prekeys@)));
    }
    Some(rot)
}

} // verus!
