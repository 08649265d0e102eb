//! OMEMO key bundles: publishing ours, reading a peer's, and correlating
//! the fetches of bundles and device lists with their answers.
use vstd::prelude::*;
use vstd::utf8::encode_utf8;
use crate::util::codec::{base64_decode, base64_decoded, base64_encode, base64_encoded};
use crate::util::ext::{is_uuid_v4_text, new_uuid};
use crate::util::maps::StrMap;
use crate::util::strs::{chars_of, concat, dec_str, parse_unsigned, parse_unsigned_chars, str_eq, string_of_range, trim, trim_bounds, u64_to_string};
use crate::util::xml::{Element, ElementView, elem, find_desc};
use crate::xmpp::modules::{NS_CLIENT, NS_PUBSUB};
use super::{NS_OMEMO, NS_OMEMO_BUNDLES};
use super::device::{DeviceManager, device_list_publish};
use super::session::{OmemoCryptoError, OmemoSessionManager, identity_key_bytes, sign_bytes, unpublished_one_time_keys};

verus! {

broadcast use crate::util::xml::group_xml;

/// A device's public key material.
#[derive(Debug, Clone, PartialEq, Eq)]
pub struct OmemoBundle {
    pub identity_key: Vec<u8>,
    pub signed_pre_key: Vec<u8>,
    pub signed_pre_key_id: u32,
    pub signed_pre_key_signature: Vec<u8>,
    pub pre_keys: Vec<(u32, Vec<u8>)>,
}

pub struct OmemoBundleView {
    pub identity_key: Seq<u8>,
    pub signed_pre_key: Seq<u8>,
    pub signed_pre_key_id: u32,
    pub signed_pre_key_signature: Seq<u8>,
    pub pre_keys: Seq<(u32, Seq<u8>)>,
}

impl View for OmemoBundle {
    type V = OmemoBundleView;

    open spec fn view(&self) -> OmemoBundleView {
        OmemoBundleView {
            identity_key: self.identity_key@,
            signed_pre_key: self.signed_pre_key@,
            signed_pre_key_id: self.signed_pre_key_id,
            signed_pre_key_signature: self.signed_pre_key_signature@,
            pre_keys: self.pre_keys@.map_values(|p: (u32, Vec<u8>)| (p.0, p.1@)),
        }
    }
}

/// Whether every key of the bundle is small enough to encode.
pub open spec fn bundle_encodable(b: OmemoBundleView) -> bool {
    &&& b.identity_key.len() <= usize::MAX / 2
    &&& b.signed_pre_key.len() <= usize::MAX / 2
    &&& b.signed_pre_key_signature.len() <= usize::MAX / 2
    &&& forall|i: int| 0 <= i < b.pre_keys.len() ==> (#[trigger] b.pre_keys[i]).1.len() <= usize::MAX / 2
}

/// `<prekeys>` with one `<preKeyPublic>` per pre-key, in order.
pub open spec fn prekeys_elem(pks: Seq<(u32, Seq<u8>)>) -> ElementView
    decreases pks.len(),
{
    if pks.len() == 0 {
        elem("prekeys"@, NS_OMEMO@)
    } else {
        prekeys_elem(pks.drop_last()).with_child(
            elem("preKeyPublic"@, NS_OMEMO@).with_attr("preKeyId"@, dec_str(pks.last().0 as nat)).with_text(
                base64_encoded(pks.last().1),
            ),
        )
    }
}

/// The `<bundle>` element of `b`.
pub open spec fn bundle_elem(b: OmemoBundleView) -> ElementView {
    let spk = elem("signedPreKeyPublic"@, NS_OMEMO@).with_attr("signedPreKeyId"@, dec_str(b.signed_pre_key_id as nat)).with_text(
        base64_encoded(b.signed_pre_key),
    );
    let sig = elem("signedPreKeySignature"@, NS_OMEMO@).with_text(base64_encoded(b.signed_pre_key_signature));
    let ik = elem("identityKey"@, NS_OMEMO@).with_text(base64_encoded(b.identity_key));
    elem("bundle"@, NS_OMEMO@).with_child(spk).with_child(sig).with_child(ik).with_child(prekeys_elem(b.pre_keys))
}

/// The publish `<iq>` of bundle `b` of device `device_id`, under id `id`.
pub open spec fn bundle_publish(id: Seq<char>, device_id: u32, b: OmemoBundleView) -> ElementView {
    let item = elem("item"@, NS_PUBSUB@).with_attr("id"@, "current"@).with_child(bundle_elem(b));
    let publish = elem("publish"@, NS_PUBSUB@).with_attr("node"@, NS_OMEMO_BUNDLES@ + ":"@ + dec_str(device_id as nat)).with_child(item);
    elem("iq"@, NS_CLIENT@).with_attr("type"@, "set"@).with_attr("id"@, id).with_child(elem("pubsub"@, NS_PUBSUB@).with_child(publish))
}

/// The bytes of base64 text with surrounding white space trimmed.
pub open spec fn b64_trimmed(text: Seq<char>) -> Option<Seq<u8>> {
    base64_decoded(encode_utf8(trim(text)))
}

/// The pre-keys of the `<preKeyPublic>` children among `cs` that have a
/// valid id and valid base64; the others are skipped.
pub open spec fn prekeys_of(cs: Seq<ElementView>) -> Seq<(u32, Seq<u8>)>
    decreases cs.len(),
{
    if cs.len() == 0 {
        Seq::empty()
    } else {
        let acc = prekeys_of(cs.drop_last());
        let c = cs.last();
        if c.name == "preKeyPublic"@ && c.ns == NS_OMEMO@ {
            match c.attr("preKeyId"@) {
                Some(t) => match (parse_unsigned(t, 0xffff_ffff), b64_trimmed(c.text)) {
                    (Some(id), Some(key)) => acc.push((id as u32, key)),
                    _ => acc,
                },
                None => acc,
            }
        } else {
            acc
        }
    }
}

/// The bundle in `el`, found depth-first, when all its parts read.
pub open spec fn parsed_bundle(el: ElementView) -> Option<OmemoBundleView> {
    match find_desc(el, "bundle"@, NS_OMEMO@) {
        None => None,
        Some(b) => match b.child("identityKey"@, NS_OMEMO@) {
            None => None,
            Some(ik_el) => match b64_trimmed(ik_el.text) {
                None => None,
                Some(ik) => match b.child("signedPreKeyPublic"@, NS_OMEMO@) {
                    None => None,
                    Some(spk_el) => match spk_el.attr("signedPreKeyId"@) {
                        None => None,
                        Some(spk_id_text) => match parse_unsigned(spk_id_text, 0xffff_ffff) {
                            None => None,
                            Some(spk_id) => match b64_trimmed(spk_el.text) {
                                None => None,
                                Some(spk) => match b.child("signedPreKeySignature"@, NS_OMEMO@) {
                                    None => None,
                                    Some(sig_el) => match b64_trimmed(sig_el.text) {
                                        None => None,
                                        Some(sig) => match b.child("prekeys"@, NS_OMEMO@) {
                                            None => None,
                                            Some(pks) => Some(
                                                OmemoBundleView {
                                                    identity_key: ik,
                                                    signed_pre_key: spk,
                                                    signed_pre_key_id: spk_id as u32,
                                                    signed_pre_key_signature: sig,
                                                    pre_keys: prekeys_of(pks.children),
                                                },
                                            ),
                                        },
                                    },
                                },
                            },
                        },
                    },
                },
            },
        },
    }
}

/// The publish request of our bundle for device `device_id`, under a fresh id.
pub fn build_bundle_publish(device_id: u32, bundle: &OmemoBundle) -> (r: Element)
    requires
        bundle_encodable(bundle@),
    ensures
        exists|id: Seq<char>| is_uuid_v4_text(id) && r@ == bundle_publish(id, device_id, bundle@),
{
    let ghost bv = bundle@;
    let iq_id = new_uuid();
    let a = concat(NS_OMEMO_BUNDLES, ":");
    let t = u64_to_string(device_id as u64);
    let node = concat(a.as_str(), t.as_str());
    let spk_id = u64_to_string(bundle.signed_pre_key_id as u64);
    let spk_text = base64_encode(bundle.signed_pre_key.as_slice());
    let spk = Element::new("signedPreKeyPublic", NS_OMEMO).with_attr("signedPreKeyId", spk_id.as_str()).with_text(
        spk_text.as_str(),
    );
    let sig_text = base64_encode(bundle.signed_pre_key_signature.as_slice());
    let sig = Element::new("signedPreKeySignature", NS_OMEMO).with_text(sig_text.as_str());
    let ik_text = base64_encode(bundle.identity_key.as_slice());
    let ik = Element::new("identityKey", NS_OMEMO).with_text(ik_text.as_str());
    let mut pks = Element::new("prekeys", NS_OMEMO);
    let mut i: usize = 0;
    while i < bundle.pre_keys.len()
        invariant
            i <= bundle.pre_keys@.len(),
            bv == bundle@,
            bv.pre_keys.len() == bundle.pre_keys@.len(),
            forall|j: int| 0 <= j < bv.pre_keys.len() ==> (#[trigger] bv.pre_keys[j]).1.len() <= usize::MAX / 2,
            pks@ == prekeys_elem(bv.pre_keys.take(i as int)),
        decreases bundle.pre_keys.len() - i,
    {
        let (pk_id, pk) = &bundle.pre_keys[i];
        proof {
            assert(bv.pre_keys.take(i + 1).drop_last() =~= bv.pre_keys.take(i as int));
            assert(bv.pre_keys.take(i + 1).last() == bv.pre_keys[i as int]);
            assert(bv.pre_keys[i as int] == (*pk_id, pk@));
        }
        let id_text = u64_to_string(*pk_id as u64);
        let key_text = base64_encode(pk.as_slice());
        pks.push_child(Element::new("preKeyPublic", NS_OMEMO).with_attr("preKeyId", id_text.as_str()).with_text(key_text.as_str()));
        i += 1;
    }
    assert(bv.pre_keys.take(i as int) =~= bv.pre_keys);
    let bundle_el = Element::new("bundle", NS_OMEMO).with_child(spk).with_child(sig).with_child(ik).with_child(pks);
    let item = Element::new("item", NS_PUBSUB).with_attr("id", "current").with_child(bundle_el);
    let publish = Element::new("publish", NS_PUBSUB).with_attr("node", node.as_str()).with_child(item);
    let r = Element::new("iq", NS_CLIENT).with_attr("type", "set").with_attr("id", iq_id.as_str()).with_child(
        Element::new("pubsub", NS_PUBSUB).with_child(publish),
    );
    assert(r@ == bundle_publish(iq_id@, device_id, bv));
    r
}

/// The bytes of the element's base64 text, trimmed.
fn decode_trimmed(e: &Element) -> (r: Option<Vec<u8>>)
    ensures
        r matches Some(v) ==> b64_trimmed(e@.text) == Some(v@),
        r is None ==> b64_trimmed(e@.text) is None,
{
    let t = e.text();
    let v = chars_of(t.as_str());
    let (lo, hi) = trim_bounds(&v);
    let s = string_of_range(&v, lo, hi);
    assert(s@ == trim(e@.text));
    base64_decode(s.as_str().as_bytes())
}

/// `str::parse::<u32>`.
fn parse_u32(s: &str) -> (r: Option<u32>)
    ensures
        r matches Some(v) ==> parse_unsigned(s@, 0xffff_ffff) == Some(v as nat),
        r is None ==> parse_unsigned(s@, 0xffff_ffff) is None,
{
    let v = chars_of(s);
    assert(v@.skip(0) =~= v@);
    match parse_unsigned_chars(&v, 0, 0xffff_ffff) {
        Some(n) => Some(n as u32),
        None => None,
    }
}

/// Reads a peer's bundle from a bare `<bundle>` or any stanza containing one.
pub fn parse_bundle(element: &Element) -> (r: Option<OmemoBundle>)
    ensures
        r is None <==> parsed_bundle(element@) is None,
        r matches Some(b) ==> b@ == parsed_bundle(element@)->0,
{
    let b = match element.find_descendant("bundle", NS_OMEMO) {
        Some(b) => b,
        None => return None,
    };
    let identity_key = match b.get_child("identityKey", NS_OMEMO) {
        Some(e) => match decode_trimmed(e) {
            Some(k) => k,
            None => return None,
        },
        None => return None,
    };
    let spk_el = match b.get_child("signedPreKeyPublic", NS_OMEMO) {
        Some(e) => e,
        None => return None,
    };
    let signed_pre_key_id = match spk_el.attr("signedPreKeyId") {
        Some(t) => match parse_u32(t) {
            Some(v) => v,
            None => return None,
        },
        None => return None,
    };
    let signed_pre_key = match decode_trimmed(spk_el) {
        Some(k) => k,
        None => return None,
    };
    let signed_pre_key_signature = match b.get_child("signedPreKeySignature", NS_OMEMO) {
        Some(e) => match decode_trimmed(e) {
            Some(k) => k,
            None => return None,
        },
        None => return None,
    };
    let pks_el = match b.get_child("prekeys", NS_OMEMO) {
        Some(e) => e,
        None => return None,
    };
    let cs = pks_el.children();
    let ghost csv = pks_el@.children;
    let mut pre_keys: Vec<(u32, Vec<u8>)> = Vec::new();
    let mut i: usize = 0;
    while i < cs.len()
        invariant
            i <= cs@.len(),
            csv == pks_el@.children,
            cs@.len() == csv.len(),
            forall|j: int| 0 <= j < cs@.len() ==> #[trigger] cs@[j]@ == csv[j],
            pre_keys@.map_values(|p: (u32, Vec<u8>)| (p.0, p.1@)) == prekeys_of(csv.take(i as int)),
        decreases cs@.len() - i,
    {
        let c = &cs[i];
        proof {
            assert(csv.take(i + 1).drop_last() =~= csv.take(i as int));
            assert(csv.take(i + 1).last() == c@);
        }
        if str_eq(c.name(), "preKeyPublic") && str_eq(c.ns(), NS_OMEMO) {
            match c.attr("preKeyId") {
                Some(t) => {
                    match (parse_u32(t), decode_trimmed(c)) {
                        (Some(id), Some(key)) => {
                            let ghost before = pre_keys@;
                            pre_keys.push((id, key));
                            assert(pre_keys@.map_values(|p: (u32, Vec<u8>)| (p.0, p.1@)) =~= before.map_values(
                                |p: (u32, Vec<u8>)| (p.0, p.1@),
                            ).push((id, key@)));
                        },
                        _ => {},
                    }
                },
                None => {},
            }
        }
        i += 1;
    }
    assert(csv.take(cs@.len() as int) =~= csv);
    Some(OmemoBundle { identity_key, signed_pre_key, signed_pre_key_id, signed_pre_key_signature, pre_keys })
}

/// Coordinates our device with the fetches awaiting answers.
pub struct OmemoManager {
    device_mgr: DeviceManager,
    pending_bundle_fetches: StrMap<(String, u32)>,
    pending_device_list_fetches: StrMap<String>,
}

impl OmemoManager {
    /// Our own device id.
    pub closed spec fn device_id(&self) -> u32 {
        self.device_mgr.device_id()
    }

    /// Our device.
    pub fn device_mgr(&self) -> (r: &DeviceManager)
        ensures
            r.device_id() == self.device_id(),
    {
        &self.device_mgr
    }

    /// Sets our own device id.
    pub fn set_own_device_id(&mut self, id: u32)
        ensures
            final(self).device_id() == id,
            final(self).bundle_fetches() == old(self).bundle_fetches(),
            final(self).device_list_fetches() == old(self).device_list_fetches(),
    {
        self.device_mgr.set_own_device_id(id);
    }

    /// The peer and device of each bundle fetch awaiting its answer.
    pub closed spec fn bundle_fetches(&self) -> Map<Seq<char>, (Seq<char>, u32)> {
        self.pending_bundle_fetches.view().map_values(|p: (String, u32)| (p.0@, p.1))
    }

    /// The peer of each device-list fetch awaiting its answer.
    pub closed spec fn device_list_fetches(&self) -> Map<Seq<char>, Seq<char>> {
        self.pending_device_list_fetches.view().map_values(|j: String| j@)
    }

    pub fn new() -> (r: Self)
        ensures
            r.device_id() == 0,
            r.bundle_fetches() == Map::<Seq<char>, (Seq<char>, u32)>::empty(),
            r.device_list_fetches() == Map::<Seq<char>, Seq<char>>::empty(),
    {
        let r = OmemoManager {
            device_mgr: DeviceManager::new(),
            pending_bundle_fetches: StrMap::new(),
            pending_device_list_fetches: StrMap::new(),
        };
        assert(r.bundle_fetches() =~= Map::<Seq<char>, (Seq<char>, u32)>::empty());
        assert(r.device_list_fetches() =~= Map::<Seq<char>, Seq<char>>::empty());
        r
    }

    /// Records that the fetch `iq_id` asks for the bundle of `device_id` of `peer_jid`.
    pub fn track_bundle_fetch(&mut self, iq_id: String, peer_jid: String, device_id: u32)
        ensures
            final(self).bundle_fetches() == old(self).bundle_fetches().insert(iq_id@, (peer_jid@, device_id)),
            final(self).device_list_fetches() == old(self).device_list_fetches(),
            final(self).device_id() == old(self).device_id(),
    {
        let ghost k = iq_id@;
        let ghost v = (peer_jid@, device_id);
        self.pending_bundle_fetches.insert(iq_id, (peer_jid, device_id));
        assert(self.bundle_fetches() =~= old(self).bundle_fetches().insert(k, v));
    }

    /// Takes the bundle fetch `iq_id` out of the pending ones.
    pub fn take_bundle_fetch(&mut self, iq_id: &str) -> (r: Option<(String, u32)>)
        ensures
            r is None <==> !old(self).bundle_fetches().contains_key(iq_id@),
            r matches Some(p) ==> (p.0@, p.1) == old(self).bundle_fetches()[iq_id@],
            final(self).bundle_fetches() == old(self).bundle_fetches().remove(iq_id@),
            final(self).device_list_fetches() == old(self).device_list_fetches(),
            final(self).device_id() == old(self).device_id(),
    {
        let r = self.pending_bundle_fetches.remove(iq_id);
        assert(self.bundle_fetches() =~= old(self).bundle_fetches().remove(iq_id@));
        r
    }

    /// Records that the fetch `iq_id` asks for the device list of `peer_jid`.
    pub fn track_device_list_fetch(&mut self, iq_id: String, peer_jid: String)
        ensures
            final(self).device_list_fetches() == old(self).device_list_fetches().insert(iq_id@, peer_jid@),
            final(self).bundle_fetches() == old(self).bundle_fetches(),
            final(self).device_id() == old(self).device_id(),
    {
        let ghost k = iq_id@;
        let ghost v = peer_jid@;
        self.pending_device_list_fetches.insert(iq_id, peer_jid);
        assert(self.device_list_fetches() =~= old(self).device_list_fetches().insert(k, v));
    }

    /// Takes the device-list fetch `iq_id` out of the pending ones.
    pub fn take_device_list_fetch(&mut self, iq_id: &str) -> (r: Option<String>)
        ensures
            r is None <==> !old(self).device_list_fetches().contains_key(iq_id@),
            r matches Some(j) ==> j@ == old(self).device_list_fetches()[iq_id@],
            final(self).device_list_fetches() == old(self).device_list_fetches().remove(iq_id@),
            final(self).bundle_fetches() == old(self).bundle_fetches(),
            final(self).device_id() == old(self).device_id(),
    {
        let r = self.pending_device_list_fetches.remove(iq_id);
        assert(self.device_list_fetches() =~= old(self).device_list_fetches().remove(iq_id@));
        r
    }
}

pub open spec fn prekeys_view(p: Seq<(u32, Vec<u8>)>) -> Seq<(u32, Seq<u8>)> {
    p.map_values(|x: (u32, Vec<u8>)| (x.0, x.1@))
}

/// `publish` is the publish request, under a fresh id, of our bundle for
/// device `device_id`: a 32-byte identity key, the signed pre-key `spk`
/// numbered `spk_id` with a 64-byte signature, and the pre-keys `pre_keys`.
pub open spec fn bundle_published(publish: ElementView, device_id: u32, spk: Seq<u8>, spk_id: u32, pre_keys: Seq<(u32, Seq<u8>)>) -> bool {
    exists|id: Seq<char>, ik: Seq<u8>, sig: Seq<u8>|
        {
            &&& is_uuid_v4_text(id) && ik.len() == 32 && sig.len() == 64
            &&& publish == #[trigger] bundle_publish(
                id,
                device_id,
                OmemoBundleView { identity_key: ik, signed_pre_key: spk, signed_pre_key_id: spk_id, signed_pre_key_signature: sig, pre_keys },
            )
        }
}


/// What enabling OMEMO leaves to store: our pickled account, the signed
/// pre-key (our identity key) with its id, and the one-time pre-keys with
/// theirs; and the two publish requests to send, the device list, then the
/// bundle.
#[derive(Debug)]
pub struct OmemoEnabled {
    pub identity_key: Vec<u8>,
    pub signed_prekey: Vec<u8>,
    pub spk_id: u32,
    pub prekeys: Vec<(u32, Vec<u8>)>,
    pub stanzas: Vec<Element>,
}

/// The number of one-time pre-keys of a new account.
pub const OMEMO_INITIAL_PREKEYS: usize = 100;

impl OmemoManager {
    /// Enables OMEMO as device `device_id` (a random non-zero id the engine
    /// draws): a new account with a hundred one-time pre-keys numbered from
    /// 1, its identity key as the signed pre-key numbered 1, signed by the
    /// account, published as a one-device list and a bundle.
    pub fn enable(&mut self, device_id: u32) -> (r: Result<OmemoEnabled, OmemoCryptoError>)
        ensures
            final(self).device_id() == device_id,
            final(self).bundle_fetches() == old(self).bundle_fetches(),
            final(self).device_list_fetches() == old(self).device_list_fetches(),
            r matches Err(e) ==> e == OmemoCryptoError::Pickle,
            r matches Ok(en) ==> {
                &&& en.spk_id == 1
                &&& en.signed_prekey@.len() == 32
                &&& forall|i: int| 0 <= i < en.prekeys@.len() ==> (#[trigger] en.prekeys@[i]).0 == i + 1 && en.prekeys@[i].1@.len() == 32
                &&& en.stanzas@.len() == 2
                &&& exists|id: Seq<char>| is_uuid_v4_text(id) && en.stanzas@[0]@ == #[trigger] device_list_publish(id, seq![device_id])
                &&& bundle_published(en.stanzas@[1]@, device_id, en.signed_prekey@, 1, prekeys_view(en.prekeys@))
            },
    {
        let account = OmemoSessionManager::init_account(OMEMO_INITIAL_PREKEYS);
        let fresh = unpublished_one_time_keys(&account);
        let mut otks: Vec<(u32, Vec<u8>)> = Vec::new();
        let mut i: usize = 0;
        while i < fresh.len() && i < 0xffff_fffe
            invariant
                i <= fresh@.len(),
                otks@.len() == i,
                forall|k: int| 0 <= k < fresh@.len() ==> (#[trigger] fresh@[k])@.len() == 32,
                forall|k: int| 0 <= k < i ==> (#[trigger] otks@[k]).0 == k + 1 && otks@[k].1@.len() == 32,
            decreases fresh@.len() - i,
        {
            otks.push(((i + 1) as u32, vstd::slice::slice_to_vec(fresh[i].as_slice())));
            i += 1;
        }
        self.set_own_device_id(device_id);
        let ik = identity_key_bytes(&account);
        let sig = sign_bytes(&account, ik.as_slice());
        let identity = match OmemoSessionManager::pickle_account(&account) {
            Ok(b) => b,
            Err(e) => return Err(e),
        };
        let bundle = OmemoBundle {
            identity_key: vstd::slice::slice_to_vec(ik.as_slice()),
            signed_pre_key: vstd::slice::slice_to_vec(ik.as_slice()),
            signed_pre_key_id: 1,
            signed_pre_key_signature: sig,
            pre_keys: copy_prekeys(&otks),
        };
        let ids = [device_id];
        let device_list_iq = self.device_mgr.build_device_list_publish(&ids);
        assert(ids@ =~= seq![device_id]);
        let bundle_iq = build_bundle_publish(device_id, &bundle);
        proof {
            lemma_bundle_published(bundle_iq@, device_id, bundle@);
        }
        let mut stanzas: Vec<Element> = Vec::new();
        stanzas.push(device_list_iq);
        stanzas.push(bundle_iq);
        Ok(OmemoEnabled { identity_key: identity, signed_prekey: ik, spk_id: 1, prekeys: otks, stanzas })
    }

    /// The publish requests that announce an enabled device again after a
    /// reconnection, from what the store kept: the one-device list and the
    /// bundle with the account's identity key, the stored signed pre-key
    /// re-signed (the identity key is what is signed), and the unconsumed
    /// one-time pre-keys.
    pub fn republish_stanzas(
        &mut self,
        device_id: u32,
        account_pickle: &[u8],
        signed_prekey: &[u8],
        spk_id: u32,
        prekeys: &[(u32, Vec<u8>)],
    ) -> (r: Result<Vec<Element>, OmemoCryptoError>)
        requires
            signed_prekey@.len() <= usize::MAX / 2,
            forall|i: int| 0 <= i < prekeys@.len() ==> (#[trigger] prekeys@[i]).1@.len() <= usize::MAX / 2,
        ensures
            final(self).device_id() == device_id,
            final(self).bundle_fetches() == old(self).bundle_fetches(),
            final(self).device_list_fetches() == old(self).device_list_fetches(),
            r matches Err(e) ==> e == OmemoCryptoError::Unpickle,
            r matches Ok(v) ==> {
                &&& v@.len() == 2
                &&& exists|id: Seq<char>| is_uuid_v4_text(id) && v@[0]@ == #[trigger] device_list_publish(id, seq![device_id])
                &&& bundle_published(v@[1]@, device_id, signed_prekey@, spk_id, prekeys_view(prekeys@))
            },
    {
        self.set_own_device_id(device_id);
        let account = match OmemoSessionManager::unpickle_account(account_pickle) {
            Ok(a) => a,
            Err(e) => return Err(e),
        };
        let ik = identity_key_bytes(&account);
        let sig = sign_bytes(&account, ik.as_slice());
        let bundle = OmemoBundle {
            identity_key: ik,
            signed_pre_key: vstd::slice::slice_to_vec(signed_prekey),
            signed_pre_key_id: spk_id,
            signed_pre_key_signature: sig,
            pre_keys: copy_prekeys(prekeys),
        };
        let ids = [device_id];
        let device_list_iq = self.device_mgr.build_device_list_publish(&ids);
        assert(ids@ =~= seq![device_id]);
        let bundle_iq = build_bundle_publish(device_id, &bundle);
        proof {
            lemma_bundle_published(bundle_iq@, device_id, bundle@);
        }
        let mut v: Vec<Element> = Vec::new();
        v.push(device_list_iq);
        v.push(bundle_iq);
        Ok(v)
    }
}

/// A copy of pre-keys.
fn copy_prekeys(p: &[(u32, Vec<u8>)]) -> (r: Vec<(u32, Vec<u8>)>)
    ensures
        prekeys_view(r@) == prekeys_view(p@),
{
    let mut r: Vec<(u32, Vec<u8>)> = Vec::new();
    let mut i: usize = 0;
    while i < p.len()
        invariant
            i <= p@.len(),
            prekeys_view(r@) == prekeys_view(p@).take(i as int),
        decreases p@.len() - i,
    {
        let ghost r0 = r@;
        r.push((p[i].0, vstd::slice::slice_to_vec(p[i].1.as_slice())));
        assert(prekeys_view(r@) =~= prekeys_view(r0).push(prekeys_view(p@)[i as int]));
        assert(prekeys_view(p@).take(i + 1) =~= prekeys_view(p@).take(i as int).push(prekeys_view(p@)[i as int]));
        i += 1;
    }
    assert(prekeys_view(p@).take(p@.len() as int) =~= prekeys_view(p@));
    r
}

proof fn lemma_bundle_published(publish: ElementView, device_id: u32, b: OmemoBundleView)
    requires
        exists|id: Seq<char>| is_uuid_v4_text(id) && publish == bundle_publish(id, device_id, b),
        b.identity_key.len() == 32,
        b.signed_pre_key_signature.len() == 64,
    ensures
        bundle_published(publish, device_id, b.signed_pre_key, b.signed_pre_key_id, b.pre_keys),
{
    let id = choose|id: Seq<char>| is_uuid_v4_text(id) && publish == bundle_publish(id, device_id, b);
    assert(b == OmemoBundleView {
        identity_key: b.identity_key,
        signed_pre_key: b.signed_pre_key,
        signed_pre_key_id: b.signed_pre_key_id,
        signed_pre_key_signature: b.signed_pre_key_signature,
        pre_keys: b.pre_keys,
    });
}

} // verus!
