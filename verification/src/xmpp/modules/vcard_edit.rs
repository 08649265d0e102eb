//! Editing our own vCard (XEP-0054): fetching it, publishing it, and the
//! fields the editor shows.
use vstd::prelude::*;
use crate::util::ext::{is_uuid_v4_text, new_uuid};
use crate::util::maps::StrSet;
use crate::util::strs::str_eq;
use crate::util::xml::{Element, ElementView, elem};
use super::{NS_CLIENT, NS_VCARD};

verus! {

broadcast use crate::util::xml::group_xml;

/// The editable fields; an empty field is left out of a published vCard.
#[derive(Debug, Clone, PartialEq, Default)]
pub struct VCardFields {
    pub nickname: String,
    pub full_name: String,
    pub organisation: String,
    pub email: String,
    pub phone: String,
}

pub struct VCardFieldsView {
    pub nickname: Seq<char>,
    pub full_name: Seq<char>,
    pub organisation: Seq<char>,
    pub email: Seq<char>,
    pub phone: Seq<char>,
}

impl View for VCardFields {
    type V = VCardFieldsView;

    open spec fn view(&self) -> VCardFieldsView {
        VCardFieldsView {
            nickname: self.nickname@,
            full_name: self.full_name@,
            organisation: self.organisation@,
            email: self.email@,
            phone: self.phone@,
        }
    }
}

/// The text of the first child named `n`, or the empty string.
pub open spec fn child_text(e: ElementView, n: Seq<char>) -> Seq<char> {
    match e.child_named(n) {
        Some(c) => c.text,
        None => Seq::empty(),
    }
}

/// The text of the first `inner` child of the first `outer` child, or the empty string.
pub open spec fn nested_text(e: ElementView, outer: Seq<char>, inner: Seq<char>) -> Seq<char> {
    match e.child_named(outer) {
        Some(o) => child_text(o, inner),
        None => Seq::empty(),
    }
}

/// The fields a `<vCard>` holds.
pub open spec fn fields_of(v: ElementView) -> VCardFieldsView {
    VCardFieldsView {
        nickname: child_text(v, "NICKNAME"@),
        full_name: child_text(v, "FN"@),
        organisation: nested_text(v, "ORG"@, "ORGNAME"@),
        email: nested_text(v, "EMAIL"@, "USERID"@),
        phone: nested_text(v, "TEL"@, "NUMBER"@),
    }
}

pub open spec fn text_elem(n: Seq<char>, t: Seq<char>) -> ElementView {
    elem(n, NS_VCARD@).with_text(t)
}

/// `e` with `c` appended when `t` is non-empty.
pub open spec fn push_if(e: ElementView, t: Seq<char>, c: ElementView) -> ElementView {
    if t.len() > 0 { e.with_child(c) } else { e }
}

/// The `<vCard>` publishing `f`.
pub open spec fn vcard_elem(f: VCardFieldsView) -> ElementView {
    let v0 = elem("vCard"@, NS_VCARD@);
    let v1 = push_if(v0, f.nickname, text_elem("NICKNAME"@, f.nickname));
    let v2 = push_if(v1, f.full_name, text_elem("FN"@, f.full_name));
    let v3 = push_if(v2, f.organisation, elem("ORG"@, NS_VCARD@).with_child(text_elem("ORGNAME"@, f.organisation)));
    let v4 = push_if(v3, f.email, elem("EMAIL"@, NS_VCARD@).with_child(elem("INTERNET"@, NS_VCARD@)).with_child(text_elem("USERID"@, f.email)));
    push_if(v4, f.phone, elem("TEL"@, NS_VCARD@).with_child(elem("VOICE"@, NS_VCARD@)).with_child(text_elem("NUMBER"@, f.phone)))
}

pub struct VCardEditManager {
    pending_get: StrSet,
    pending_set: StrSet,
}

impl VCardEditManager {
    /// Ids of fetches awaiting their answer.
    pub closed spec fn pending_get(&self) -> Set<Seq<char>> {
        self.pending_get.view()
    }

    /// Ids of publications awaiting their answer.
    pub closed spec fn pending_set(&self) -> Set<Seq<char>> {
        self.pending_set.view()
    }

    pub fn new() -> (r: Self)
        ensures
            r.pending_get() == Set::<Seq<char>>::empty(),
            r.pending_set() == Set::<Seq<char>>::empty(),
    {
        VCardEditManager { pending_get: StrSet::new(), pending_set: StrSet::new() }
    }

    /// Whether the fetch `id` awaits its answer.
    pub fn is_get_pending(&self, id: &str) -> (b: bool)
        ensures
            b == self.pending_get().contains(id@),
    {
        self.pending_get.contains(id)
    }

    /// Whether the publication `id` awaits its answer.
    pub fn is_set_pending(&self, id: &str) -> (b: bool)
        ensures
            b == self.pending_set().contains(id@),
    {
        self.pending_set.contains(id)
    }

    /// The request for our own vCard, under a fresh id recorded as pending.
    pub fn build_get(&mut self) -> (r: (String, Element))
        ensures
            is_uuid_v4_text(r.0@),
            r.1@ == elem("iq"@, NS_CLIENT@).with_attr("type"@, "get"@).with_attr("id"@, r.0@).with_child(elem("vCard"@, NS_VCARD@)),
            final(self).pending_get() == old(self).pending_get().insert(r.0@),
            final(self).pending_set() == old(self).pending_set(),
    {
        let id = new_uuid();
        self.pending_get.insert(id.clone());
        let iq = Element::new("iq", NS_CLIENT).with_attr("type", "get").with_attr("id", id.as_str()).with_child(
            Element::new("vCard", NS_VCARD),
        );
        (id, iq)
    }

    /// Reads the answer to a pending fetch; the fetch stops being pending
    /// even when the answer holds no vCard.
    pub fn on_get_result(&mut self, el: &Element) -> (r: Option<VCardFields>)
        ensures
            final(self).pending_set() == old(self).pending_set(),
            el@.attr("id"@) matches Some(id) ==> final(self).pending_get() == old(self).pending_get().remove(id),
            el@.attr("id"@) is None ==> final(self).pending_get() == old(self).pending_get(),
            r is Some <==> ({
                &&& el@.attr("id"@) matches Some(id)
                &&& old(self).pending_get().contains(id)
                &&& el@.child("vCard"@, NS_VCARD@) is Some
            }),
            r matches Some(f) ==> f@ == fields_of(el@.child("vCard"@, NS_VCARD@)->0),
    {
        let iq_id = match el.attr("id") {
            Some(i) => i,
            None => return None,
        };
        let was = self.pending_get.contains(iq_id);
        self.pending_get.remove(iq_id);
        if !was {
            return None;
        }
        let vcard = match el.get_child("vCard", NS_VCARD) {
            Some(v) => v,
            None => return None,
        };
        Some(parse_vcard_fields(vcard))
    }

    /// The request publishing `fields`, under a fresh id recorded as pending.
    pub fn build_set(&mut self, fields: &VCardFields) -> (r: (String, Element))
        ensures
            is_uuid_v4_text(r.0@),
            r.1@ == elem("iq"@, NS_CLIENT@).with_attr("type"@, "set"@).with_attr("id"@, r.0@).with_child(vcard_elem(fields@)),
            final(self).pending_set() == old(self).pending_set().insert(r.0@),
            final(self).pending_get() == old(self).pending_get(),
    {
        let id = new_uuid();
        self.pending_set.insert(id.clone());
        let vcard = build_vcard_element(fields);
        let iq = Element::new("iq", NS_CLIENT).with_attr("type", "set").with_attr("id", id.as_str()).with_child(vcard);
        (id, iq)
    }

    /// Whether `el` answers a pending publication; it stops being pending.
    pub fn on_set_result(&mut self, el: &Element) -> (b: bool)
        ensures
            final(self).pending_get() == old(self).pending_get(),
            el@.attr("id"@) matches Some(id) ==> b == old(self).pending_set().contains(id) && final(self).pending_set()
                == old(self).pending_set().remove(id),
            el@.attr("id"@) is None ==> !b && final(self).pending_set() == old(self).pending_set(),
    {
        let iq_id = match el.attr("id") {
            Some(i) => i,
            None => return false,
        };
        let was = self.pending_set.contains(iq_id);
        self.pending_set.remove(iq_id);
        was
    }
}

fn child_text_exec(e: &Element, n: &str) -> (r: String)
    ensures
        r@ == child_text(e@, n@),
{
    match e.get_child_named(n) {
        Some(c) => c.text(),
        None => String::new(),
    }
}

fn nested_text_exec(e: &Element, outer: &str, inner: &str) -> (r: String)
    ensures
        r@ == nested_text(e@, outer@, inner@),
{
    match e.get_child_named(outer) {
        Some(o) => child_text_exec(o, inner),
        None => String::new(),
    }
}

/// The fields of a `<vCard>`.
pub fn parse_vcard_fields(vcard: &Element) -> (r: VCardFields)
    ensures
        r@ == fields_of(vcard@),
{
    VCardFields {
        nickname: child_text_exec(vcard, "NICKNAME"),
        full_name: child_text_exec(vcard, "FN"),
        organisation: nested_text_exec(vcard, "ORG", "ORGNAME"),
        email: nested_text_exec(vcard, "EMAIL", "USERID"),
        phone: nested_text_exec(vcard, "TEL", "NUMBER"),
    }
}

/// The `<vCard>` publishing `fields`; empty fields are left out.
pub fn build_vcard_element(fields: &VCardFields) -> (r: Element)
    ensures
        r@ == vcard_elem(fields@),
{
    let mut vcard = Element::new("vCard", NS_VCARD);
    if !fields.nickname.as_str().is_empty() {
        vcard.push_child(Element::new("NICKNAME", NS_VCARD).with_text(fields.nickname.as_str()));
    }
    if !fields.full_name.as_str().is_empty() {
        vcard.push_child(Element::new("FN", NS_VCARD).with_text(fields.full_name.as_str()));
    }
    if !fields.organisation.as_str().is_empty() {
        vcard.push_child(Element::new("ORG", NS_VCARD).with_child(Element::new("ORGNAME", NS_VCARD).with_text(fields.organisation.as_str())));
    }
    if !fields.email.as_str().is_empty() {
        vcard.push_child(
            Element::new("EMAIL", NS_VCARD).with_child(Element::new("INTERNET", NS_VCARD)).with_child(
                Element::new("USERID", NS_VCARD).with_text(fields.email.as_str()),
            ),
        );
    }
    if !fields.phone.as_str().is_empty() {
        vcard.push_child(
            Element::new("TEL", NS_VCARD).with_child(Element::new("VOICE", NS_VCARD)).with_child(
                Element::new("NUMBER", NS_VCARD).with_text(fields.phone.as_str()),
            ),
        );
    }
    vcard
}

/// Publishing fields and reading the published vCard back gives the same
/// fields: an empty field is left out and reads back as empty.
pub proof fn law_vcard_roundtrip(f: VCardFieldsView)
    ensures
        fields_of(vcard_elem(f)) == f,
{
    reveal_strlit("NICKNAME");
    reveal_strlit("FN");
    reveal_strlit("ORG");
    reveal_strlit("ORGNAME");
    reveal_strlit("EMAIL");
    reveal_strlit("INTERNET");
    reveal_strlit("USERID");
    reveal_strlit("TEL");
    reveal_strlit("VOICE");
    reveal_strlit("NUMBER");
    assert("NICKNAME"@[0] == 'N' && "FN"@[0] == 'F' && "ORG"@[0] == 'O' && "EMAIL"@[0] == 'E' && "TEL"@[0] == 'T');
    assert("INTERNET"@[0] == 'I' && "USERID"@[0] == 'U');
    assert("VOICE"@[0] == 'V' && "NUMBER"@[0] == 'N');
    assert("NICKNAME"@.len() == 8 && "NUMBER"@.len() == 6);
    assert("NICKNAME"@ != "FN"@ && "NICKNAME"@ != "ORG"@ && "NICKNAME"@ != "EMAIL"@ && "NICKNAME"@ != "TEL"@);
    assert("FN"@ != "ORG"@ && "FN"@ != "EMAIL"@ && "FN"@ != "TEL"@);
    assert("ORG"@ != "EMAIL"@ && "ORG"@ != "TEL"@ && "EMAIL"@ != "TEL"@);
    assert("INTERNET"@ != "USERID"@ && "VOICE"@ != "NUMBER"@);
    assert(fields_of(vcard_elem(f)) =~= f) by {
        assert(f.nickname.len() == 0 ==> f.nickname =~= Seq::<char>::empty());
        assert(f.full_name.len() == 0 ==> f.full_name =~= Seq::<char>::empty());
        assert(f.organisation.len() == 0 ==> f.organisation =~= Seq::<char>::empty());
        assert(f.email.len() == 0 ==> f.email =~= Seq::<char>::empty());
        assert(f.phone.len() == 0 ==> f.phone =~= Seq::<char>::empty());
        assert(Seq::<char>::empty() + f.nickname =~= f.nickname);
        assert(Seq::<char>::empty() + f.full_name =~= f.full_name);
        assert(Seq::<char>::empty() + f.organisation =~= f.organisation);
        assert(Seq::<char>::empty() + f.email =~= f.email);
        assert(Seq::<char>::empty() + f.phone =~= f.phone);
    }
}

} // verus!
