//! User avatars: PubSub avatars (XEP-0084) and the vCard photo (XEP-0054)
//! as a fallback, with a cache per contact.
use vstd::prelude::*;
use vstd::utf8::encode_utf8;
use crate::util::codec::{base64_decode, base64_decoded, base64_encode, base64_encoded};
use crate::util::ext::{is_uuid_v4_text, new_uuid};
use crate::util::maps::StrMap;
use crate::util::strs::{dec_str, strip_ws, u64_to_string, without_ws};
use crate::util::xml::{Element, ElementView, attr_either, elem, first_such, ns_either};
use super::{NS_CLIENT, NS_PUBSUB, NS_VCARD};

verus! {

broadcast use crate::util::xml::group_xml;

pub const NS_AVATAR_DATA: &'static str = "urn:xmpp:avatar:data";
pub const NS_AVATAR_META: &'static str = "urn:xmpp:avatar:metadata";
pub const NS_AVATAR_META_DRAFT: &'static str = "urn:xmpp:avatar:metadata:2";
pub const NS_PUBSUB_EVENT: &'static str = "http://jabber.org/protocol/pubsub#event";
pub const DEFAULT_MIME: &'static str = "image/png";

/// The avatar of one contact: its hash, its type and, once fetched, its bytes.
#[derive(Debug, Clone, PartialEq)]
pub struct AvatarInfo {
    pub jid: String,
    pub sha1: String,
    pub mime_type: String,
    pub data: Vec<u8>,
}

pub struct AvatarInfoView {
    pub jid: Seq<char>,
    pub sha1: Seq<char>,
    pub mime_type: Seq<char>,
    pub data: Seq<u8>,
}

impl View for AvatarInfo {
    type V = AvatarInfoView;

    open spec fn view(&self) -> AvatarInfoView {
        AvatarInfoView { jid: self.jid@, sha1: self.sha1@, mime_type: self.mime_type@, data: self.data@ }
    }
}

impl AvatarInfo {
    /// A copy with the same fields.
    pub fn copy(&self) -> (r: AvatarInfo)
        ensures
            r@ == self@,
    {
        AvatarInfo { jid: self.jid.clone(), sha1: self.sha1.clone(), mime_type: self.mime_type.clone(), data: self.data.clone() }
    }
}

/// The hash and type announced by a metadata event.
pub open spec fn metadata_event(el: ElementView) -> Option<(Seq<char>, Seq<char>)> {
    match el.child("event"@, NS_PUBSUB_EVENT@) {
        None => None,
        Some(event) => match first_such(event.children, attr_either("items"@, "node"@, NS_AVATAR_META@, NS_AVATAR_META_DRAFT@)) {
            None => None,
            Some(items) => match items.child_named("item"@) {
                None => None,
                Some(item) => match item.attr("id"@) {
                    None => None,
                    Some(sha1) => match first_such(item.children, ns_either("metadata"@, NS_AVATAR_META@, NS_AVATAR_META_DRAFT@)) {
                        None => None,
                        Some(metadata) => match metadata.child_named("info"@) {
                            None => None,
                            Some(info) => Some(
                                (
                                    sha1,
                                    match info.attr("type"@) {
                                        Some(t) => t,
                                        None => DEFAULT_MIME@,
                                    },
                                ),
                            ),
                        },
                    },
                },
            },
        },
    }
}

/// The item id (or the empty string) and the base64 text of a data result.
pub open spec fn data_result(el: ElementView) -> Option<(Seq<char>, Seq<char>)> {
    match el.child("pubsub"@, NS_PUBSUB@) {
        None => None,
        Some(pubsub) => match first_such(pubsub.children, attr_either("items"@, "node"@, NS_AVATAR_DATA@, NS_AVATAR_DATA@)) {
            None => None,
            Some(items) => match items.child_named("item"@) {
                None => None,
                Some(item) => match item.child("data"@, NS_AVATAR_DATA@) {
                    None => None,
                    Some(d) => Some(
                        (
                            match item.attr("id"@) {
                                Some(i) => i,
                                None => Seq::empty(),
                            },
                            d.text,
                        ),
                    ),
                },
            },
        },
    }
}

/// The bytes of base64 text, white space ignored.
pub open spec fn decoded_text(text: Seq<char>) -> Option<Seq<u8>> {
    base64_decoded(encode_utf8(strip_ws(text)))
}

/// The `<PHOTO>` of a vCard result.
pub open spec fn vcard_photo(el: ElementView) -> Option<ElementView> {
    match el.child("vCard"@, NS_VCARD@) {
        None => None,
        Some(vcard) => vcard.child_named("PHOTO"@),
    }
}

/// The type of a vCard photo: its non-empty `<TYPE>`, or PNG.
pub open spec fn photo_mime(photo: ElementView) -> Seq<char> {
    match photo.child_named("TYPE"@) {
        Some(t) => if t.text.len() > 0 { t.text } else { DEFAULT_MIME@ },
        None => DEFAULT_MIME@,
    }
}

/// The bytes of a vCard photo, when its `<BINVAL>` holds non-empty valid base64.
pub open spec fn photo_bytes(photo: ElementView) -> Option<Seq<u8>> {
    match photo.child_named("BINVAL"@) {
        None => None,
        Some(b) => if strip_ws(b.text).len() == 0 { None } else { decoded_text(b.text) },
    }
}

/// The request for the avatar bytes with item id `sha1` from `to`.
pub open spec fn data_request(to: Seq<char>, sha1: Seq<char>) -> ElementView {
    let items = elem("items"@, NS_PUBSUB@).with_attr("node"@, NS_AVATAR_DATA@).with_child(elem("item"@, NS_PUBSUB@).with_attr("id"@, sha1));
    elem("iq"@, NS_CLIENT@).with_attr("type"@, "get"@).with_attr("to"@, to).with_child(elem("pubsub"@, NS_PUBSUB@).with_child(items))
}

/// The vCard request to `jid` under id `id`.
pub open spec fn vcard_request(id: Seq<char>, jid: Seq<char>) -> ElementView {
    elem("iq"@, NS_CLIENT@).with_attr("type"@, "get"@).with_attr("id"@, id).with_attr("to"@, jid).with_child(elem("vCard"@, NS_VCARD@))
}

/// The publish `<iq>` for node `node` with item `sha1` holding `payload`.
pub open spec fn publish_iq(to: Seq<char>, node: Seq<char>, sha1: Seq<char>, payload: ElementView) -> ElementView {
    let item = elem("item"@, NS_PUBSUB@).with_attr("id"@, sha1).with_child(payload);
    let publish = elem("publish"@, NS_PUBSUB@).with_attr("node"@, node).with_child(item);
    elem("iq"@, NS_CLIENT@).with_attr("type"@, "set"@).with_attr("to"@, to).with_child(elem("pubsub"@, NS_PUBSUB@).with_child(publish))
}

/// The metadata payload announcing an image.
pub open spec fn metadata_payload(sha1: Seq<char>, bytes: nat, mime: Seq<char>) -> ElementView {
    let info = elem("info"@, NS_AVATAR_META@).with_attr("id"@, sha1).with_attr("bytes"@, dec_str(bytes)).with_attr("type"@, mime);
    elem("metadata"@, NS_AVATAR_META@).with_child(info)
}

pub struct AvatarManager {
    cache: StrMap<AvatarInfo>,
    pending_vcards: StrMap<String>,
}

impl AvatarManager {
    /// The avatar of each contact.
    pub closed spec fn cache(&self) -> Map<Seq<char>, AvatarInfoView> {
        self.cache.view().map_values(|a: AvatarInfo| a@)
    }

    /// The contact of each vCard request that has not been answered.
    pub closed spec fn pending_vcards(&self) -> Map<Seq<char>, Seq<char>> {
        self.pending_vcards.view().map_values(|j: String| j@)
    }

    pub fn new() -> (r: Self)
        ensures
            r.cache() == Map::<Seq<char>, AvatarInfoView>::empty(),
            r.pending_vcards() == Map::<Seq<char>, Seq<char>>::empty(),
    {
        let r = AvatarManager { cache: StrMap::new(), pending_vcards: StrMap::new() };
        assert(r.cache() =~= Map::<Seq<char>, AvatarInfoView>::empty());
        assert(r.pending_vcards() =~= Map::<Seq<char>, Seq<char>>::empty());
        r
    }

    /// Reads a metadata event from `from_jid`: the announced avatar, with no
    /// bytes yet, replaces the cached one.
    pub fn on_avatar_metadata_event(&mut self, from_jid: &str, el: &Element) -> (r: Option<AvatarInfo>)
        ensures
            r is None <==> metadata_event(el@) is None,
            r is None ==> final(self).cache() == old(self).cache(),
            r matches Some(a) ==> {
                let (sha1, mime) = metadata_event(el@)->0;
                &&& a@ == (AvatarInfoView { jid: from_jid@, sha1, mime_type: mime, data: Seq::empty() })
                &&& final(self).cache() == old(self).cache().insert(from_jid@, a@)
            },
            final(self).pending_vcards() == old(self).pending_vcards(),
    {
        let event = match el.get_child("event", NS_PUBSUB_EVENT) {
            Some(e) => e,
            None => return None,
        };
        let items = match event.find_child_attr_either("items", "node", NS_AVATAR_META, NS_AVATAR_META_DRAFT) {
            Some(i) => i,
            None => return None,
        };
        let item = match items.get_child_named("item") {
            Some(i) => i,
            None => return None,
        };
        let sha1 = match item.attr("id") {
            Some(s) => s.to_owned(),
            None => return None,
        };
        let metadata = match item.find_child_ns_either("metadata", NS_AVATAR_META, NS_AVATAR_META_DRAFT) {
            Some(m) => m,
            None => return None,
        };
        let info = match metadata.get_child_named("info") {
            Some(i) => i,
            None => return None,
        };
        let mime_type = match info.attr("type") {
            Some(t) => t.to_owned(),
            None => DEFAULT_MIME.to_owned(),
        };
        let avatar = AvatarInfo { jid: from_jid.to_owned(), sha1, mime_type, data: Vec::new() };
        assert(avatar@.data =~= Seq::<u8>::empty());
        self.cache.insert(from_jid.to_owned(), avatar.copy());
        assert(self.cache() =~= old(self).cache().insert(from_jid@, avatar@));
        Some(avatar)
    }

    /// The request for the avatar bytes of `to_jid` with item id `sha1`.
    pub fn build_avatar_data_request(&self, to_jid: &str, sha1: &str) -> (r: Element)
        ensures
            r@ == data_request(to_jid@, sha1@),
    {
        let items = Element::new("items", NS_PUBSUB).with_attr("node", NS_AVATAR_DATA).with_child(
            Element::new("item", NS_PUBSUB).with_attr("id", sha1),
        );
        Element::new("iq", NS_CLIENT).with_attr("type", "get").with_attr("to", to_jid).with_child(
            Element::new("pubsub", NS_PUBSUB).with_child(items),
        )
    }

    /// Reads avatar bytes from a data result of `from_jid`: the decoded image
    /// replaces the cached avatar, keeping its type (PNG when none was cached).
    pub fn on_avatar_data_result(&mut self, from_jid: &str, el: &Element) -> (r: Option<AvatarInfo>)
        ensures
            r is Some <==> (data_result(el@) matches Some((_, text)) && decoded_text(text) is Some),
            r is None ==> final(self).cache() == old(self).cache(),
            r matches Some(a) ==> {
                let (sha1, text) = data_result(el@)->0;
                &&& a@ == (AvatarInfoView {
                    jid: from_jid@,
                    sha1,
                    mime_type: if old(self).cache().contains_key(from_jid@) {
                        old(self).cache()[from_jid@].mime_type
                    } else {
                        DEFAULT_MIME@
                    },
                    data: decoded_text(text)->0,
                })
                &&& final(self).cache() == old(self).cache().insert(from_jid@, a@)
            },
            final(self).pending_vcards() == old(self).pending_vcards(),
    {
        let pubsub = match el.get_child("pubsub", NS_PUBSUB) {
            Some(p) => p,
            None => return None,
        };
        let items = match pubsub.find_child_attr_either("items", "node", NS_AVATAR_DATA, NS_AVATAR_DATA) {
            Some(i) => i,
            None => return None,
        };
        let item = match items.get_child_named("item") {
            Some(i) => i,
            None => return None,
        };
        let sha1 = match item.attr("id") {
            Some(s) => s.to_owned(),
            None => String::new(),
        };
        let data_el = match item.get_child("data", NS_AVATAR_DATA) {
            Some(d) => d,
            None => return None,
        };
        let text = data_el.text();
        let clean = without_ws(text.as_str());
        let raw = match base64_decode(clean.as_str().as_bytes()) {
            Some(b) => b,
            None => return None,
        };
        let mime_type = match self.cache.get(from_jid) {
            Some(a) => a.mime_type.clone(),
            None => DEFAULT_MIME.to_owned(),
        };
        let avatar = AvatarInfo { jid: from_jid.to_owned(), sha1, mime_type, data: raw };
        self.cache.insert(from_jid.to_owned(), avatar.copy());
        assert(self.cache() =~= old(self).cache().insert(from_jid@, avatar@));
        Some(avatar)
    }

    /// The vCard request for `jid` under a fresh id, recorded as pending.
    pub fn build_vcard_request(&mut self, jid: &str) -> (r: (String, Element))
        ensures
            is_uuid_v4_text(r.0@),
            r.1@ == vcard_request(r.0@, jid@),
            final(self).pending_vcards() == old(self).pending_vcards().insert(r.0@, jid@),
            final(self).cache() == old(self).cache(),
    {
        let id = new_uuid();
        self.pending_vcards.insert(id.clone(), jid.to_owned());
        assert(self.pending_vcards() =~= old(self).pending_vcards().insert(id@, jid@));
        let iq = Element::new("iq", NS_CLIENT).with_attr("type", "get").with_attr("id", id.as_str()).with_attr(
            "to",
            jid,
        ).with_child(Element::new("vCard", NS_VCARD));
        (id, iq)
    }

    /// Reads the photo of a vCard result. An answered request stops being
    /// pending; when the photo decodes, it replaces the contact's avatar
    /// (with an empty hash).
    pub fn on_vcard_result(&mut self, el: &Element) -> (r: Option<AvatarInfo>)
        ensures
            final(self).pending_vcards() == (match el@.attr("id"@) {
                Some(id) => old(self).pending_vcards().remove(id),
                None => old(self).pending_vcards(),
            }),
            r is Some <==> ({
                &&& el@.attr("id"@) matches Some(id)
                &&& old(self).pending_vcards().contains_key(id)
                &&& vcard_photo(el@) matches Some(photo)
                &&& photo_bytes(photo) is Some
            }),
            r is None ==> final(self).cache() == old(self).cache(),
            r matches Some(a) ==> {
                let jid = old(self).pending_vcards()[el@.attr("id"@)->0];
                let photo = vcard_photo(el@)->0;
                &&& a@ == (AvatarInfoView {
                    jid,
                    sha1: Seq::empty(),
                    mime_type: photo_mime(photo),
                    data: photo_bytes(photo)->0,
                })
                &&& final(self).cache() == old(self).cache().insert(jid, a@)
            },
    {
        let iq_id = match el.attr("id") {
            Some(i) => i,
            None => return None,
        };
        let jid = match self.pending_vcards.remove(iq_id) {
            Some(j) => j,
            None => {
                assert(old(self).pending_vcards().remove(iq_id@) =~= old(self).pending_vcards());
                return None;
            },
        };
        assert(self.pending_vcards() =~= old(self).pending_vcards().remove(iq_id@));
        let vcard = match el.get_child("vCard", NS_VCARD) {
            Some(v) => v,
            None => return None,
        };
        let photo = match vcard.get_child_named("PHOTO") {
            Some(p) => p,
            None => return None,
        };
        let binval = match photo.get_child_named("BINVAL") {
            Some(b) => b,
            None => return None,
        };
        let text = binval.text();
        let clean = without_ws(text.as_str());
        if clean.as_str().is_empty() {
            return None;
        }
        let raw = match base64_decode(clean.as_str().as_bytes()) {
            Some(b) => b,
            None => return None,
        };
        let mime_type = match photo.get_child_named("TYPE") {
            Some(t) => {
                let s = t.text();
                if s.as_str().is_empty() {
                    DEFAULT_MIME.to_owned()
                } else {
                    s
                }
            },
            None => DEFAULT_MIME.to_owned(),
        };
        let avatar = AvatarInfo { jid: jid.clone(), sha1: String::new(), mime_type, data: raw };
        self.cache.insert(jid, avatar.copy());
        assert(self.cache() =~= old(self).cache().insert(avatar@.jid, avatar@));
        Some(avatar)
    }

    /// The publish request announcing our avatar: its hash, size and type.
    pub fn build_avatar_metadata_publish(&self, pubsub_jid: &str, sha1: &str, bytes: usize, mime_type: &str) -> (r: Element)
        ensures
            r@ == publish_iq(pubsub_jid@, NS_AVATAR_META@, sha1@, metadata_payload(sha1@, bytes as nat, mime_type@)),
    {
        let size = u64_to_string(bytes as u64);
        let info = Element::new("info", NS_AVATAR_META).with_attr("id", sha1).with_attr("bytes", size.as_str()).with_attr(
            "type",
            mime_type,
        );
        let metadata = Element::new("metadata", NS_AVATAR_META).with_child(info);
        build_publish(pubsub_jid, NS_AVATAR_META, sha1, metadata)
    }

    /// The publish request carrying our avatar's bytes in base64.
    pub fn build_avatar_data_publish(&self, pubsub_jid: &str, sha1: &str, data: &[u8], mime_type: &str) -> (r: Element)
        requires
            data@.len() <= usize::MAX / 2,
        ensures
            r@ == publish_iq(pubsub_jid@, NS_AVATAR_DATA@, sha1@, elem("data"@, NS_AVATAR_DATA@).with_text(base64_encoded(data@))),
    {
        let encoded = base64_encode(data);
        let payload = Element::new("data", NS_AVATAR_DATA).with_text(encoded.as_str());
        build_publish(pubsub_jid, NS_AVATAR_DATA, sha1, payload)
    }

    /// The contact of the pending vCard request `iq_id`.
    pub fn pending_vcard_jid(&self, iq_id: &str) -> (r: Option<&str>)
        ensures
            r is None <==> !self.pending_vcards().contains_key(iq_id@),
            r matches Some(j) ==> self.pending_vcards()[iq_id@] == j@,
    {
        match self.pending_vcards.get(iq_id) {
            Some(j) => Some(j.as_str()),
            None => None,
        }
    }

    /// The cached avatar of `jid`.
    pub fn get(&self, jid: &str) -> (r: Option<&AvatarInfo>)
        ensures
            r is None <==> !self.cache().contains_key(jid@),
            r matches Some(a) ==> self.cache()[jid@] == a@,
    {
        self.cache.get(jid)
    }

    /// Caches `info` as the avatar of `info.jid`.
    pub fn set(&mut self, info: AvatarInfo)
        ensures
            final(self).cache() == old(self).cache().insert(info.jid@, info@),
            final(self).pending_vcards() == old(self).pending_vcards(),
    {
        let key = info.jid.clone();
        let ghost v = info@;
        self.cache.insert(key, info);
        assert(self.cache() =~= old(self).cache().insert(v.jid, v));
    }
}

fn build_publish(to: &str, node: &str, sha1: &str, payload: Element) -> (r: Element)
    ensures
        r@ == publish_iq(to@, node@, sha1@, payload@),
{
    let item = Element::new("item", NS_PUBSUB).with_attr("id", sha1).with_child(payload);
    let publish = Element::new("publish", NS_PUBSUB).with_attr("node", node).with_child(item);
    Element::new("iq", NS_CLIENT).with_attr("type", "set").with_attr("to", to).with_child(
        Element::new("pubsub", NS_PUBSUB).with_child(publish),
    )
}

} // verus!
