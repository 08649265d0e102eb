//! The `<encrypted>` element of an OMEMO message: building and reading it.
//! Only the encoding; the cryptography is elsewhere.
use vstd::prelude::*;
use vstd::utf8::encode_utf8;
use crate::util::codec::{base64_decode, base64_decoded, base64_encode, base64_encoded};
use crate::util::strs::{chars_of, dec_str, lemma_dec_str_parse, parse_unsigned, parse_unsigned_chars, str_eq, u64_to_string};
use crate::util::xml::{Element, ElementView, attr_index, elem};
use crate::xmpp::modules::NS_CLIENT;
use super::NS_OMEMO;

verus! {

broadcast use crate::util::xml::group_xml;

pub const NS_HINTS: &'static str = "urn:xmpp:hints";

/// The key of one recipient device.
#[derive(Debug, Clone, PartialEq, Eq)]
pub struct MessageKey {
    pub rid: u32,
    pub prekey: bool,
    pub data: Vec<u8>,
}

/// The header: sender device, recipient keys and the IV.
#[derive(Debug, Clone, PartialEq, Eq)]
pub struct MessageHeader {
    pub sid: u32,
    pub keys: Vec<MessageKey>,
    pub iv: Vec<u8>,
}

/// An encrypted message; with no payload it only transports keys.
#[derive(Debug, Clone, PartialEq, Eq)]
pub struct EncryptedMessage {
    pub header: MessageHeader,
    pub payload: Option<Vec<u8>>,
}

pub struct MessageKeyView {
    pub rid: u32,
    pub prekey: bool,
    pub data: Seq<u8>,
}

pub struct MessageHeaderView {
    pub sid: u32,
    pub keys: Seq<MessageKeyView>,
    pub iv: Seq<u8>,
}

pub struct EncryptedMessageView {
    pub header: MessageHeaderView,
    pub payload: Option<Seq<u8>>,
}

impl View for MessageKey {
    type V = MessageKeyView;

    open spec fn view(&self) -> MessageKeyView {
        MessageKeyView { rid: self.rid, prekey: self.prekey, data: self.data@ }
    }
}

impl View for MessageHeader {
    type V = MessageHeaderView;

    open spec fn view(&self) -> MessageHeaderView {
        MessageHeaderView { sid: self.sid, keys: self.keys@.map_values(|k: MessageKey| k@), iv: self.iv@ }
    }
}

impl View for EncryptedMessage {
    type V = EncryptedMessageView;

    open spec fn view(&self) -> EncryptedMessageView {
        EncryptedMessageView {
            header: self.header@,
            payload: match self.payload {
                Some(p) => Some(p@),
                None => None,
            },
        }
    }
}

/// Whether every byte string of the message is small enough to encode.
pub open spec fn encodable(m: EncryptedMessageView) -> bool {
    &&& m.header.iv.len() <= usize::MAX / 2
    &&& forall|i: int| 0 <= i < m.header.keys.len() ==> (#[trigger] m.header.keys[i]).data.len() <= usize::MAX / 2
    &&& (m.payload matches Some(p) ==> p.len() <= usize::MAX / 2)
}

/// `<key rid=..>` with the key in base64, marked when it is a pre-key message.
pub open spec fn key_elem(k: MessageKeyView) -> ElementView {
    let e = elem("key"@, NS_OMEMO@).with_attr("rid"@, dec_str(k.rid as nat));
    let e2 = if k.prekey { e.with_attr("prekey"@, "true"@) } else { e };
    e2.with_text(base64_encoded(k.data))
}

/// `<header sid=..>` with one `<key>` per key, in order.
pub open spec fn header_keys(sid: u32, keys: Seq<MessageKeyView>) -> ElementView
    decreases keys.len(),
{
    if keys.len() == 0 {
        elem("header"@, NS_OMEMO@).with_attr("sid"@, dec_str(sid as nat))
    } else {
        header_keys(sid, keys.drop_last()).with_child(key_elem(keys.last()))
    }
}

/// The `<header>` of `h`: its keys, then its IV.
pub open spec fn header_elem(h: MessageHeaderView) -> ElementView {
    header_keys(h.sid, h.keys).with_child(elem("iv"@, NS_OMEMO@).with_text(base64_encoded(h.iv)))
}

/// The `<encrypted>` element of `m`.
pub open spec fn encrypted_elem(m: EncryptedMessageView) -> ElementView {
    let e = elem("encrypted"@, NS_OMEMO@).with_child(header_elem(m.header));
    match m.payload {
        Some(p) => e.with_child(elem("payload"@, NS_OMEMO@).with_text(base64_encoded(p))),
        None => e,
    }
}

/// The chat `<message>` to `to` carrying `m`, with a storage hint.
pub open spec fn message_elem(to: Seq<char>, m: EncryptedMessageView) -> ElementView {
    elem("message"@, NS_CLIENT@).with_attr("to"@, to).with_attr("type"@, "chat"@).with_child(encrypted_elem(m)).with_child(
        elem("store"@, NS_HINTS@),
    )
}

/// The bytes of base64 text.
pub open spec fn b64(text: Seq<char>) -> Option<Seq<u8>> {
    base64_decoded(encode_utf8(text))
}

/// The keys of the `<key>` children among `cs`; nothing when one of them
/// lacks a valid `rid` or valid base64.
pub open spec fn keys_of(cs: Seq<ElementView>) -> Option<Seq<MessageKeyView>>
    decreases cs.len(),
{
    if cs.len() == 0 {
        Some(Seq::empty())
    } else {
        match keys_of(cs.drop_last()) {
            None => None,
            Some(acc) => {
                let c = cs.last();
                if !(c.name == "key"@ && c.ns == NS_OMEMO@) {
                    Some(acc)
                } else {
                    match c.attr("rid"@) {
                        None => None,
                        Some(rid) => match (parse_unsigned(rid, 0xffff_ffff), b64(c.text)) {
                            (Some(r), Some(data)) => Some(
                                acc.push(MessageKeyView { rid: r as u32, prekey: c.attr("prekey"@) == Some("true"@), data }),
                            ),
                            _ => None,
                        },
                    }
                }
            },
        }
    }
}

/// The `<encrypted>` element: `el` itself, or its child.
pub open spec fn encrypted_of(el: ElementView) -> Option<ElementView> {
    if el.name == "encrypted"@ && el.ns == NS_OMEMO@ {
        Some(el)
    } else {
        el.child("encrypted"@, NS_OMEMO@)
    }
}

/// The message that `el` carries, when it is a valid encrypted message.
pub open spec fn parsed_message(el: ElementView) -> Option<EncryptedMessageView> {
    match encrypted_of(el) {
        None => None,
        Some(enc) => match enc.child("header"@, NS_OMEMO@) {
            None => None,
            Some(h) => match h.attr("sid"@) {
                None => None,
                Some(sid_text) => match parse_unsigned(sid_text, 0xffff_ffff) {
                    None => None,
                    Some(sid) => match keys_of(h.children) {
                        None => None,
                        Some(keys) => match h.child("iv"@, NS_OMEMO@) {
                            None => None,
                            Some(iv_el) => match b64(iv_el.text) {
                                None => None,
                                Some(iv) => Some(
                                    EncryptedMessageView {
                                        header: MessageHeaderView { sid: sid as u32, keys, iv },
                                        payload: match enc.child("payload"@, NS_OMEMO@) {
                                            Some(p) => b64(p.text),
                                            None => None,
                                        },
                                    },
                                ),
                            },
                        },
                    },
                },
            },
        },
    }
}

/// The chat message to `to` carrying `encrypted`.
pub fn build_encrypted_message(to: &str, from_device: u32, encrypted: &EncryptedMessage) -> (r: Element)
    requires
        encodable(encrypted@),
    ensures
        r@ == message_elem(to@, encrypted@),
        parsed_message(r@) == Some(encrypted@),
{
    let payload: Option<&[u8]> = match &encrypted.payload {
        Some(p) => Some(p.as_slice()),
        None => None,
    };
    let enc = build_encrypted_element(&encrypted.header, payload);
    proof {
        assert(encrypted@ == EncryptedMessageView { header: encrypted.header@, payload: match payload { Some(p) => Some(p@), None => None } });
        lemma_message_roundtrip(to@, encrypted@);
    }
    Element::new("message", NS_CLIENT).with_attr("to", to).with_attr("type", "chat").with_child(enc).with_child(
        Element::new("store", NS_HINTS),
    )
}

/// A message that only transports keys: the header and no payload.
pub fn build_key_transport(to: &str, from_device: u32, header: &MessageHeader) -> (r: Element)
    requires
        encodable(EncryptedMessageView { header: header@, payload: None }),
    ensures
        r@ == message_elem(to@, EncryptedMessageView { header: header@, payload: None }),
        parsed_message(r@) == Some(EncryptedMessageView { header: header@, payload: None }),
{
    let enc = build_encrypted_element(header, None);
    proof {
        lemma_message_roundtrip(to@, EncryptedMessageView { header: header@, payload: None });
    }
    Element::new("message", NS_CLIENT).with_attr("to", to).with_attr("type", "chat").with_child(enc).with_child(
        Element::new("store", NS_HINTS),
    )
}

/// Reads an encrypted message from a `<message>` or a bare `<encrypted>`.
pub fn parse_encrypted_message(element: &Element) -> (r: Option<EncryptedMessage>)
    ensures
        r is None <==> parsed_message(element@) is None,
        r matches Some(m) ==> m@ == parsed_message(element@)->0,
{
    let enc = if str_eq(element.name(), "encrypted") && str_eq(element.ns(), NS_OMEMO) {
        element
    } else {
        match element.get_child("encrypted", NS_OMEMO) {
            Some(e) => e,
            None => return None,
        }
    };
    let header = match enc.get_child("header", NS_OMEMO) {
        Some(h) => h,
        None => return None,
    };
    let sid = match header.attr("sid") {
        Some(s) => match parse_u32(s) {
            Some(v) => v,
            None => return None,
        },
        None => return None,
    };
    let keys = match parse_keys(header) {
        Some(k) => k,
        None => return None,
    };
    let iv = match header.get_child("iv", NS_OMEMO) {
        Some(iv_el) => match decode_text(iv_el) {
            Some(b) => b,
            None => return None,
        },
        None => return None,
    };
    let payload = match enc.get_child("payload", NS_OMEMO) {
        Some(p) => decode_text(p),
        None => None,
    };
    let r = EncryptedMessage { header: MessageHeader { sid, keys, iv }, payload };
    assert(r@.header.keys == keys_of(header@.children)->0);
    Some(r)
}

/// Whether the message carries no payload.
pub fn is_key_transport(msg: &EncryptedMessage) -> (b: bool)
    ensures
        b == (msg@.payload is None),
{
    msg.payload.is_none()
}

/// `str::parse::<u32>`.
fn parse_u32(s: &str) -> (r: Option<u32>)
    ensures
        r matches Some(v) ==> parse_unsigned(s@, 0xffff_ffff) == Some(v as nat),
        r is None ==> parse_unsigned(s@, 0xffff_ffff) is None,
{
    let v = chars_of(s);
    assert(v@.skip(0) =~= v@);
    match parse_unsigned_chars(&v, 0, 0xffff_ffff) {
        Some(n) => Some(n as u32),
        None => None,
    }
}

/// The bytes of the element's base64 text.
fn decode_text(e: &Element) -> (r: Option<Vec<u8>>)
    ensures
        r matches Some(v) ==> b64(e@.text) == Some(v@),
        r is None ==> b64(e@.text) is None,
{
    let t = e.text();
    base64_decode(t.as_str().as_bytes())
}

/// The keys of a `<header>`.
fn parse_keys(header: &Element) -> (r: Option<Vec<MessageKey>>)
    ensures
        r is None <==> keys_of(header@.children) is None,
        r matches Some(v) ==> v@.map_values(|k: MessageKey| k@) == keys_of(header@.children)->0,
{
    let cs = header.children();
    let ghost csv = header@.children;
    let mut keys: Vec<MessageKey> = Vec::new();
    let mut i: usize = 0;
    assert(keys@.map_values(|k: MessageKey| k@) =~= Seq::<MessageKeyView>::empty());
    while i < cs.len()
        invariant
            i <= cs@.len(),
            csv == header@.children,
            cs@.len() == csv.len(),
            forall|j: int| 0 <= j < cs@.len() ==> #[trigger] cs@[j]@ == csv[j],
            keys_of(csv.take(i as int)) == Some(keys@.map_values(|k: MessageKey| k@)),
        decreases cs@.len() - i,
    {
        let c = &cs[i];
        proof {
            assert(csv.take(i + 1).drop_last() =~= csv.take(i as int));
            assert(csv.take(i + 1).last() == c@);
        }
        if str_eq(c.name(), "key") && str_eq(c.ns(), NS_OMEMO) {
            let rid = match c.attr("rid") {
                Some(s) => match parse_u32(s) {
                    Some(v) => v,
                    None => {
                        proof { lemma_keys_none(csv, i as int + 1); }
                        return None;
                    },
                },
                None => {
                    proof { lemma_keys_none(csv, i as int + 1); }
                    return None;
                },
            };
            let data = match decode_text(c) {
                Some(d) => d,
                None => {
                    proof { lemma_keys_none(csv, i as int + 1); }
                    return None;
                },
            };
            let prekey = c.attr_is("prekey", "true");
            let ghost before = keys@;
            let k = MessageKey { rid, prekey, data };
            keys.push(k);
            assert(keys@.map_values(|k: MessageKey| k@) =~= before.map_values(|k: MessageKey| k@).push(k@));
        }
        i += 1;
    }
    assert(csv.take(cs@.len() as int) =~= csv);
    Some(keys)
}

/// Once a prefix fails to read, the whole list does.
proof fn lemma_keys_none(cs: Seq<ElementView>, i: int)
    requires
        0 <= i <= cs.len(),
        keys_of(cs.take(i)) is None,
    ensures
        keys_of(cs) is None,
    decreases cs.len() - i,
{
    if i < cs.len() {
        assert(cs.take(i + 1).drop_last() =~= cs.take(i));
        lemma_keys_none(cs, i + 1);
    } else {
        assert(cs.take(i) =~= cs);
    }
}

/// The `<encrypted>` element of a header and an optional payload.
fn build_encrypted_element(header: &MessageHeader, payload: Option<&[u8]>) -> (r: Element)
    requires
        encodable(EncryptedMessageView { header: header@, payload: match payload { Some(p) => Some(p@), None => None } }),
    ensures
        r@ == encrypted_elem(EncryptedMessageView { header: header@, payload: match payload { Some(p) => Some(p@), None => None } }),
        base64_readable(EncryptedMessageView { header: header@, payload: match payload { Some(p) => Some(p@), None => None } }),
{
    let ghost hv = header@;
    let sid_text = u64_to_string(header.sid as u64);
    let mut header_el = Element::new("header", NS_OMEMO).with_attr("sid", sid_text.as_str());
    let mut i: usize = 0;
    while i < header.keys.len()
        invariant
            i <= header.keys@.len(),
            hv == header@,
            hv.keys.len() == header.keys@.len(),
            forall|j: int| 0 <= j < hv.keys.len() ==> (#[trigger] hv.keys[j]).data.len() <= usize::MAX / 2,
            header_el@ == header_keys(hv.sid, hv.keys.take(i as int)),
            forall|j: int| 0 <= j < i ==> b64(base64_encoded(#[trigger] hv.keys[j].data)) == Some(hv.keys[j].data),
        decreases header.keys.len() - i,
    {
        let k = &header.keys[i];
        proof {
            assert(hv.keys.take(i + 1).drop_last() =~= hv.keys.take(i as int));
            assert(hv.keys.take(i + 1).last() == k@);
            assert(hv.keys[i as int] == k@);
        }
        let rid_text = u64_to_string(k.rid as u64);
        let mut key_el = Element::new("key", NS_OMEMO).with_attr("rid", rid_text.as_str());
        if k.prekey {
            key_el = key_el.with_attr("prekey", "true");
        }
        let data_text = base64_encode(k.data.as_slice());
        assert(b64(base64_encoded(hv.keys[i as int].data)) == Some(hv.keys[i as int].data));
        key_el = key_el.with_text(data_text.as_str());
        header_el.push_child(key_el);
        i += 1;
    }
    assert(hv.keys.take(i as int) =~= hv.keys);
    let iv_text = base64_encode(header.iv.as_slice());
    assert(b64(base64_encoded(hv.iv)) == Some(hv.iv));
    header_el.push_child(Element::new("iv", NS_OMEMO).with_text(iv_text.as_str()));
    let mut enc = Element::new("encrypted", NS_OMEMO).with_child(header_el);
    match payload {
        Some(p) => {
            let t = base64_encode(p);
            assert(b64(base64_encoded(p@)) == Some(p@));
            enc.push_child(Element::new("payload", NS_OMEMO).with_text(t.as_str()));
        },
        None => {},
    }
    enc
}

/// Every byte string of `m` reads back from its base64 text.
pub open spec fn base64_readable(m: EncryptedMessageView) -> bool {
    &&& forall|i: int| 0 <= i < m.header.keys.len() ==> b64(base64_encoded(#[trigger] m.header.keys[i].data)) == Some(m.header.keys[i].data)
    &&& b64(base64_encoded(m.header.iv)) == Some(m.header.iv)
    &&& (m.payload matches Some(p) ==> b64(base64_encoded(p)) == Some(p))
}

proof fn lemma_key_elem(k: MessageKeyView)
    requires
        b64(base64_encoded(k.data)) == Some(k.data),
    ensures
        key_elem(k).name == "key"@,
        key_elem(k).ns == NS_OMEMO@,
        key_elem(k).attr("rid"@) == Some(dec_str(k.rid as nat)),
        (key_elem(k).attr("prekey"@) == Some("true"@)) == k.prekey,
        b64(key_elem(k).text) == Some(k.data),
{
    reveal_strlit("rid");
    reveal_strlit("prekey");
    reveal_strlit("true");
    assert("rid"@ != "prekey"@) by {
        assert("rid"@.len() == 3 && "prekey"@.len() == 6);
    }
    assert(key_elem(k).text =~= base64_encoded(k.data));
    let e = elem("key"@, NS_OMEMO@).with_attr("rid"@, dec_str(k.rid as nat));
    assert(e.attrs =~= seq![("rid"@, dec_str(k.rid as nat))]);
    assert(attr_index(e.attrs, "prekey"@) is None) by {
        assert(e.attrs.drop_first() =~= Seq::<(Seq<char>, Seq<char>)>::empty());
        assert(attr_index(e.attrs.drop_first(), "prekey"@) is None);
        assert(e.attrs[0].0 == "rid"@);
    }
    if k.prekey {
        let e2 = e.with_attr("prekey"@, "true"@);
        assert(e2.attrs =~= seq![("rid"@, dec_str(k.rid as nat)), ("prekey"@, "true"@)]);
        assert(attr_index(e2.attrs, "prekey"@) == Some(1int)) by {
            assert(e2.attrs.drop_first() =~= seq![("prekey"@, "true"@)]);
            assert(attr_index(e2.attrs.drop_first(), "prekey"@) == Some(0int));
            assert(e2.attrs[0].0 == "rid"@);
        }
        assert(attr_index(e2.attrs, "rid"@) == Some(0int));
    } else {
        assert(attr_index(e.attrs, "prekey"@) is None) by {
            assert(e.attrs.drop_first() =~= Seq::<(Seq<char>, Seq<char>)>::empty());
        }
        assert(attr_index(e.attrs, "rid"@) == Some(0int));
    }
}

/// The `<key>` elements of `ks`, in order.
pub open spec fn key_elems(ks: Seq<MessageKeyView>) -> Seq<ElementView> {
    Seq::new(ks.len(), |i: int| key_elem(ks[i]))
}

proof fn lemma_header_keys(sid: u32, ks: Seq<MessageKeyView>)
    ensures
        header_keys(sid, ks).children == key_elems(ks),
        header_keys(sid, ks).attr("sid"@) == Some(dec_str(sid as nat)),
        header_keys(sid, ks).child("iv"@, NS_OMEMO@) is None,
        header_keys(sid, ks).name == "header"@,
        header_keys(sid, ks).ns == NS_OMEMO@,
    decreases ks.len(),
{
    reveal_strlit("iv");
    reveal_strlit("key");
    assert("iv"@ != "key"@) by {
        assert("iv"@.len() == 2 && "key"@.len() == 3);
    }
    if ks.len() == 0 {
        assert(key_elems(ks) =~= Seq::<ElementView>::empty());
        let e = elem("header"@, NS_OMEMO@);
        assert(e.with_attr("sid"@, dec_str(sid as nat)).attrs =~= seq![("sid"@, dec_str(sid as nat))]);
        assert(attr_index(seq![("sid"@, dec_str(sid as nat))], "sid"@) == Some(0int));
    } else {
        lemma_header_keys(sid, ks.drop_last());
        assert(key_elems(ks) =~= key_elems(ks.drop_last()).push(key_elem(ks.last())));
    }
}

proof fn lemma_keys_of_elems(ks: Seq<MessageKeyView>)
    requires
        forall|i: int| 0 <= i < ks.len() ==> b64(base64_encoded(#[trigger] ks[i].data)) == Some(ks[i].data),
    ensures
        keys_of(key_elems(ks)) == Some(ks),
    decreases ks.len(),
{
    if ks.len() > 0 {
        let init = ks.drop_last();
        assert forall|i: int| 0 <= i < init.len() implies b64(base64_encoded(#[trigger] init[i].data)) == Some(init[i].data) by {
            assert(init[i] == ks[i]);
        }
        lemma_keys_of_elems(init);
        assert(key_elems(ks).drop_last() =~= key_elems(init));
        let k = ks.last();
        assert(b64(base64_encoded(ks[ks.len() - 1].data)) == Some(ks[ks.len() - 1].data));
        lemma_key_elem(k);
        lemma_dec_str_parse(k.rid as nat, 0xffff_ffff);
        assert(key_elems(ks).last() == key_elem(k));
        assert(ks =~= init.push(MessageKeyView { rid: k.rid, prekey: k.prekey, data: k.data }));
    } else {
        assert(key_elems(ks) =~= Seq::<ElementView>::empty());
        assert(ks =~= Seq::<MessageKeyView>::empty());
    }
}

/// A message built from `m` reads back as `m`, given that each of its byte
/// strings reads back from its base64 text.
pub proof fn lemma_message_roundtrip(to: Seq<char>, m: EncryptedMessageView)
    requires
        base64_readable(m),
    ensures
        parsed_message(message_elem(to, m)) == Some(m),
        parsed_message(encrypted_elem(m)) == Some(m),
{
    reveal_strlit("encrypted");
    reveal_strlit("message");
    reveal_strlit("store");
    reveal_strlit("header");
    reveal_strlit("iv");
    reveal_strlit("payload");
    assert("message"@ != "encrypted"@) by {
        assert("message"@.len() == 7 && "encrypted"@.len() == 9);
    }
    assert("store"@ != "encrypted"@) by {
        assert("store"@.len() == 5);
    }
    assert("header"@ != "payload"@) by {
        assert("header"@.len() == 6 && "payload"@.len() == 7);
    }
    assert("iv"@ != "header"@) by {
        assert("iv"@.len() == 2);
    }
    reveal_strlit("key");
    assert("iv"@ != "key"@) by {
        assert("key"@.len() == 3);
    }
    let h = m.header;
    lemma_header_keys(h.sid, h.keys);
    lemma_keys_of_elems(h.keys);
    lemma_dec_str_parse(h.sid as nat, 0xffff_ffff);
    let he = header_elem(h);
    let iv_el = elem("iv"@, NS_OMEMO@).with_text(base64_encoded(h.iv));
    assert(he == header_keys(h.sid, h.keys).with_child(iv_el));
    assert(iv_el.text =~= base64_encoded(h.iv));
    assert(he.children.drop_last() =~= header_keys(h.sid, h.keys).children);
    assert(he.children.last() == iv_el);
    assert(keys_of(he.children) == Some(h.keys));
    assert(he.child("iv"@, NS_OMEMO@) == Some(iv_el));
    assert(he.attr("sid"@) == Some(dec_str(h.sid as nat)));
    let enc = encrypted_elem(m);
    let e0 = elem("encrypted"@, NS_OMEMO@).with_child(he);
    assert(e0.child("header"@, NS_OMEMO@) == Some(he));
    match m.payload {
        Some(p) => {
            let pe = elem("payload"@, NS_OMEMO@).with_text(base64_encoded(p));
            assert(enc == e0.with_child(pe));
            assert(pe.text =~= base64_encoded(p));
            assert(enc.child("payload"@, NS_OMEMO@) == Some(pe));
            assert(enc.child("header"@, NS_OMEMO@) == Some(he));
        },
        None => {
            assert(enc == e0);
            assert(enc.child("payload"@, NS_OMEMO@) is None);
        },
    }
    assert(encrypted_of(enc) == Some(enc));
    let msg = message_elem(to, m);
    assert(msg.child("encrypted"@, NS_OMEMO@) == Some(enc));
    assert(encrypted_of(msg) == Some(enc));
}

} // verus!
