//! Bits of Binary (XEP-0231): small binary data carried in stanzas under a
//! content id.
use vstd::prelude::*;
use vstd::utf8::encode_utf8;
use crate::util::codec::{base64_decode, base64_decoded, base64_encode, base64_encoded};
use crate::util::ext::{is_uuid_v4_text, new_uuid};
use crate::util::strs::{chars_of, dec_str, parse_unsigned, parse_unsigned_chars, strip_ws, u64_to_string, without_ws};
use crate::util::xml::{Element, ElementView, elem, find_desc};
use super::NS_CLIENT;

verus! {

broadcast use crate::util::xml::group_xml;

pub const NS_BOB: &'static str = "urn:xmpp:bob";

/// A piece of binary data with its content id, type and cache lifetime.
#[derive(Debug, Clone, PartialEq)]
pub struct BobData {
    pub cid: String,
    pub content_type: String,
    pub data: Vec<u8>,
    /// Seconds it may be cached; zero means not at all.
    pub max_age: Option<u32>,
}

pub struct BobDataView {
    pub cid: Seq<char>,
    pub content_type: Seq<char>,
    pub data: Seq<u8>,
    pub max_age: Option<u32>,
}

impl View for BobData {
    type V = BobDataView;

    open spec fn view(&self) -> BobDataView {
        BobDataView { cid: self.cid@, content_type: self.content_type@, data: self.data@, max_age: self.max_age }
    }
}

/// The `<data>` element carrying `b` in base64.
pub open spec fn bob_elem(b: BobDataView) -> ElementView {
    let e = elem("data"@, NS_BOB@).with_attr("cid"@, b.cid).with_attr("type"@, b.content_type);
    let e2 = match b.max_age {
        Some(a) => e.with_attr("max-age"@, dec_str(a as nat)),
        None => e,
    };
    e2.with_text(base64_encoded(b.data))
}

/// The data that the first `<data>` element found depth-first in `el` carries.
pub open spec fn parsed_bob(el: ElementView) -> Option<BobDataView> {
    match find_desc(el, "data"@, NS_BOB@) {
        None => None,
        Some(d) => match (d.attr("cid"@), d.attr("type"@)) {
            (Some(cid), Some(ty)) => match base64_decoded(encode_utf8(strip_ws(d.text))) {
                None => None,
                Some(data) => Some(
                    BobDataView {
                        cid,
                        content_type: ty,
                        data,
                        max_age: match d.attr("max-age"@) {
                            Some(a) => match parse_unsigned(a, 0xffff_ffff) {
                                Some(n) => Some(n as u32),
                                None => None,
                            },
                            None => None,
                        },
                    },
                ),
            },
            _ => None,
        },
    }
}

/// The `<data>` element carrying `bob`.
pub fn build_bob_data(bob: &BobData) -> (r: Element)
    requires
        bob@.data.len() <= usize::MAX / 2,
    ensures
        r@ == bob_elem(bob@),
{
    let encoded = base64_encode(bob.data.as_slice());
    let mut e = Element::new("data", NS_BOB).with_attr("cid", bob.cid.as_str()).with_attr("type", bob.content_type.as_str());
    match bob.max_age {
        Some(a) => {
            let t = u64_to_string(a as u64);
            e = e.with_attr("max-age", t.as_str());
        },
        None => {},
    }
    e.with_text(encoded.as_str())
}

/// Reads the data of a `<data>` element, bare or anywhere inside `element`.
pub fn parse_bob_data(element: &Element) -> (r: Option<BobData>)
    ensures
        r is None <==> parsed_bob(element@) is None,
        r matches Some(b) ==> b@ == parsed_bob(element@)->0,
{
    let d = match element.find_descendant("data", NS_BOB) {
        Some(d) => d,
        None => return None,
    };
    let cid = match d.attr("cid") {
        Some(c) => c.to_owned(),
        None => return None,
    };
    let content_type = match d.attr("type") {
        Some(t) => t.to_owned(),
        None => return None,
    };
    let max_age = match d.attr("max-age") {
        Some(a) => {
            let v = chars_of(a);
            assert(v@.skip(0) =~= v@);
            match parse_unsigned_chars(&v, 0, 0xffff_ffff) {
                Some(n) => Some(n as u32),
                None => None,
            }
        },
        None => None,
    };
    let text = d.text();
    let clean = without_ws(text.as_str());
    let data = match base64_decode(clean.as_str().as_bytes()) {
        Some(b) => b,
        None => return None,
    };
    Some(BobData { cid, content_type, data, max_age })
}

/// The request for the data with content id `cid` from `from`, under a fresh id.
pub fn build_bob_request(cid: &str, from: &str) -> (r: Element)
    ensures
        exists|id: Seq<char>| {
            &&& is_uuid_v4_text(id)
            &&& r@ == elem("iq"@, NS_CLIENT@).with_attr("type"@, "get"@).with_attr("id"@, id).with_attr("to"@, from@).with_child(
                elem("data"@, NS_BOB@).with_attr("cid"@, cid@),
            )
        },
{
    let id = new_uuid();
    let r = Element::new("iq", NS_CLIENT).with_attr("type", "get").with_attr("id", id.as_str()).with_attr("to", from).with_child(
        Element::new("data", NS_BOB).with_attr("cid", cid),
    );
    assert(r@ == elem("iq"@, NS_CLIENT@).with_attr("type"@, "get"@).with_attr("id"@, id@).with_attr("to"@, from@).with_child(
        elem("data"@, NS_BOB@).with_attr("cid"@, cid@),
    ));
    r
}

} // verus!
