//! HTTP file upload (XEP-0363): asking for an upload slot and reading the
//! slot the server grants.
use vstd::prelude::*;
use crate::util::ext::{is_uuid_v4_text, new_uuid};
use crate::util::maps::StrMap;
use crate::util::strs::{dec_str, str_eq, u64_to_string};
use crate::util::xml::{Element, ElementView, elem};
use super::NS_CLIENT;

verus! {

broadcast use crate::util::xml::group_xml;

pub const NS_UPLOAD: &'static str = "urn:xmpp:http:upload:0";

/// A granted slot: where to PUT the file, where it will be served, and the
/// headers the PUT must carry.
#[derive(Debug, Clone, PartialEq)]
pub struct UploadSlot {
    pub put_url: String,
    pub get_url: String,
    pub put_headers: Vec<(String, String)>,
}

/// A slot request awaiting its answer.
#[derive(Debug, Clone)]
pub struct SlotRequest {
    pub id: String,
    pub filename: String,
    pub size: u64,
    pub content_type: String,
    pub upload_service_jid: String,
}

#[verifier::ext_equal]
pub struct UploadSlotView {
    pub put_url: Seq<char>,
    pub get_url: Seq<char>,
    pub put_headers: Seq<(Seq<char>, Seq<char>)>,
}

pub struct SlotRequestView {
    pub id: Seq<char>,
    pub filename: Seq<char>,
    pub size: u64,
    pub content_type: Seq<char>,
    pub upload_service_jid: Seq<char>,
}

pub open spec fn pairs_view(s: Seq<(String, String)>) -> Seq<(Seq<char>, Seq<char>)> {
    Seq::new(s.len(), |i: int| (s[i].0@, s[i].1@))
}

impl View for UploadSlot {
    type V = UploadSlotView;

    open spec fn view(&self) -> UploadSlotView {
        UploadSlotView { put_url: self.put_url@, get_url: self.get_url@, put_headers: pairs_view(self.put_headers@) }
    }
}

impl View for SlotRequest {
    type V = SlotRequestView;

    open spec fn view(&self) -> SlotRequestView {
        SlotRequestView {
            id: self.id@,
            filename: self.filename@,
            size: self.size,
            content_type: self.content_type@,
            upload_service_jid: self.upload_service_jid@,
        }
    }
}

/// The slot request stanza.
pub open spec fn slot_request(id: Seq<char>, filename: Seq<char>, size: u64, content_type: Seq<char>, service: Seq<char>) -> ElementView {
    let req = elem("request"@, NS_UPLOAD@).with_attr("filename"@, filename).with_attr("size"@, dec_str(size as nat)).with_attr(
        "content-type"@,
        content_type,
    );
    elem("iq"@, NS_CLIENT@).with_attr("type"@, "get"@).with_attr("id"@, id).with_attr("to"@, service).with_child(req)
}

/// The headers among `cs`: each `<header>` with a `name`, and its text.
pub open spec fn headers_of(cs: Seq<ElementView>) -> Seq<(Seq<char>, Seq<char>)>
    decreases cs.len(),
{
    if cs.len() == 0 {
        Seq::empty()
    } else {
        let acc = headers_of(cs.drop_last());
        let c = cs.last();
        if c.name == "header"@ && c.attr("name"@) is Some {
            acc.push((c.attr("name"@)->0, c.text))
        } else {
            acc
        }
    }
}

/// The slot that a result carries: its `<slot>`'s first `<put>` and
/// `<get>`, each with a `url`.
pub open spec fn slot_of(el: ElementView) -> Option<UploadSlotView> {
    match el.child("slot"@, NS_UPLOAD@) {
        None => None,
        Some(slot) => match slot.child_named("put"@) {
            None => None,
            Some(put) => match put.attr("url"@) {
                None => None,
                Some(put_url) => match slot.child_named("get"@) {
                    None => None,
                    Some(get) => match get.attr("url"@) {
                        None => None,
                        Some(get_url) => Some(UploadSlotView { put_url, get_url, put_headers: headers_of(put.children) }),
                    },
                },
            },
        },
    }
}

pub struct FileUploadManager {
    pending: StrMap<SlotRequest>,
}

impl FileUploadManager {
    /// The slot requests awaiting their answer, by IQ id.
    pub closed spec fn pending(&self) -> Map<Seq<char>, SlotRequestView> {
        self.pending.view().map_values(|r: SlotRequest| r@)
    }

    pub fn new() -> (r: Self)
        ensures
            r.pending() == Map::<Seq<char>, SlotRequestView>::empty(),
    {
        let r = FileUploadManager { pending: StrMap::new() };
        assert(r.pending() =~= Map::<Seq<char>, SlotRequestView>::empty());
        r
    }

    /// The request for a slot for a file, under a fresh id recorded as pending.
    pub fn request_slot(&mut self, filename: &str, size: u64, content_type: &str, upload_service_jid: &str) -> (r: (String, Element))
        ensures
            is_uuid_v4_text(r.0@),
            r.1@ == slot_request(r.0@, filename@, size, content_type@, upload_service_jid@),
            final(self).pending() == old(self).pending().insert(
                r.0@,
                SlotRequestView {
                    id: r.0@,
                    filename: filename@,
                    size,
                    content_type: content_type@,
                    upload_service_jid: upload_service_jid@,
                },
            ),
    {
        let iq_id = new_uuid();
        let size_text = u64_to_string(size);
        let req = Element::new("request", NS_UPLOAD).with_attr("filename", filename).with_attr("size", size_text.as_str()).with_attr(
            "content-type",
            content_type,
        );
        let iq = Element::new("iq", NS_CLIENT).with_attr("type", "get").with_attr("id", iq_id.as_str()).with_attr(
            "to",
            upload_service_jid,
        ).with_child(req);
        let sr = SlotRequest {
            id: iq_id.clone(),
            filename: filename.to_owned(),
            size,
            content_type: content_type.to_owned(),
            upload_service_jid: upload_service_jid.to_owned(),
        };
        let ghost sv = sr@;
        self.pending.insert(iq_id.clone(), sr);
        assert(self.pending() =~= old(self).pending().insert(iq_id@, sv));
        (iq_id, iq)
    }

    /// Reads a slot result for a pending request; the request stops being
    /// pending only when a slot is read.
    pub fn on_slot_result(&mut self, el: &Element) -> (r: Option<UploadSlot>)
        ensures
            r is Some <==> ({
                &&& el@.name == "iq"@
                &&& el@.attr("type"@) == Some("result"@)
                &&& el@.attr("id"@) matches Some(id)
                &&& old(self).pending().contains_key(id)
                &&& slot_of(el@) is Some
            }),
            r is None ==> final(self).pending() == old(self).pending(),
            r matches Some(s) ==> s@ == slot_of(el@)->0 && final(self).pending() == old(self).pending().remove(el@.attr("id"@)->0),
    {
        if !str_eq(el.name(), "iq") || !el.attr_is("type", "result") {
            return None;
        }
        let iq_id = match el.attr("id") {
            Some(i) => i,
            None => return None,
        };
        if !self.pending.contains_key(iq_id) {
            return None;
        }
        let slot = match read_slot(el) {
            Some(s) => s,
            None => return None,
        };
        self.pending.remove(iq_id);
        assert(self.pending() =~= old(self).pending().remove(iq_id@));
        Some(slot)
    }

    /// Reads an error answering a pending request: the request stops being
    /// pending and its id is returned.
    pub fn on_slot_error(&mut self, el: &Element) -> (r: Option<String>)
        ensures
            (el@.name == "iq"@ && el@.attr("type"@) == Some("error"@) && el@.attr("id"@) is Some) ==> {
                let id = el@.attr("id"@)->0;
                &&& final(self).pending() == old(self).pending().remove(id)
                &&& (r is Some <==> old(self).pending().contains_key(id))
                &&& (r matches Some(x) ==> x@ == id)
            },
            !(el@.name == "iq"@ && el@.attr("type"@) == Some("error"@) && el@.attr("id"@) is Some) ==> r is None
                && final(self).pending() == old(self).pending(),
    {
        if !str_eq(el.name(), "iq") || !el.attr_is("type", "error") {
            return None;
        }
        let iq_id = match el.attr("id") {
            Some(i) => i,
            None => return None,
        };
        let removed = self.pending.remove(iq_id);
        assert(self.pending() =~= old(self).pending().remove(iq_id@));
        match removed {
            Some(_) => Some(iq_id.to_owned()),
            None => None,
        }
    }

    /// Whether the request `iq_id` awaits its answer.
    pub fn is_pending(&self, iq_id: &str) -> (b: bool)
        ensures
            b == self.pending().contains_key(iq_id@),
    {
        self.pending.contains_key(iq_id)
    }
}

fn read_slot(el: &Element) -> (r: Option<UploadSlot>)
    ensures
        r is None <==> slot_of(el@) is None,
        r matches Some(s) ==> s@ == slot_of(el@)->0,
{
    let slot = match el.get_child("slot", NS_UPLOAD) {
        Some(s) => s,
        None => return None,
    };
    let put = match slot.get_child_named("put") {
        Some(p) => p,
        None => return None,
    };
    let put_url = match put.attr("url") {
        Some(u) => u.to_owned(),
        None => return None,
    };
    let get = match slot.get_child_named("get") {
        Some(g) => g,
        None => return None,
    };
    let get_url = match get.attr("url") {
        Some(u) => u.to_owned(),
        None => return None,
    };
    let cs = put.children();
    let ghost csv = put@.children;
    let mut headers: Vec<(String, String)> = Vec::new();
    let mut i: usize = 0;
    assert(pairs_view(headers@) =~= Seq::<(Seq<char>, Seq<char>)>::empty());
    while i < cs.len()
        invariant
            i <= cs@.len(),
            csv == put@.children,
            cs@.len() == csv.len(),
            forall|j: int| 0 <= j < cs@.len() ==> #[trigger] cs@[j]@ == csv[j],
            pairs_view(headers@) == headers_of(csv.take(i as int)),
        decreases cs@.len() - i,
    {
        let c = &cs[i];
        proof {
            assert(csv.take(i + 1).drop_last() =~= csv.take(i as int));
            assert(csv.take(i + 1).last() == c@);
        }
        if str_eq(c.name(), "header") {
            match c.attr("name") {
                Some(n) => {
                    let ghost before = headers@;
                    let name = n.to_owned();
                    let value = c.text();
                    let ghost pv = (name@, value@);
                    headers.push((name, value));
                    assert(pairs_view(headers@) =~= pairs_view(before).push(pv));
                },
                None => {},
            }
        }
        i += 1;
    }
    assert(csv.take(cs@.len() as int) =~= csv);
    Some(UploadSlot { put_url, get_url, put_headers: headers })
}

} // verus!
