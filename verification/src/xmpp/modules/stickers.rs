//! Sticker packs (XEP-0449): reading a pack and sending a sticker, whose
//! image is referred to by a Bits of Binary content id.
use vstd::prelude::*;
use crate::util::ext::{is_uuid_v4_text, new_uuid};
use crate::util::strs::{chars_of, concat, seq_starts_with, str_eq, string_of_range, vec_starts_with};
use crate::util::xml::{Element, ElementView, elem};
use super::NS_CLIENT;

verus! {

broadcast use crate::util::xml::group_xml;

pub const NS_STICKERS: &'static str = "urn:xmpp:stickers:0";

/// A sticker of a pack.
#[derive(Debug, Clone, PartialEq)]
pub struct Sticker {
    pub id: String,
    pub desc: String,
    pub content_type: String,
    pub cid: String,
}

/// A named collection of stickers.
#[derive(Debug, Clone, PartialEq)]
pub struct StickerPack {
    pub id: String,
    pub name: String,
    pub stickers: Vec<Sticker>,
}

pub struct StickerView {
    pub id: Seq<char>,
    pub desc: Seq<char>,
    pub content_type: Seq<char>,
    pub cid: Seq<char>,
}

#[verifier::ext_equal]
pub struct StickerPackView {
    pub id: Seq<char>,
    pub name: Seq<char>,
    pub stickers: Seq<StickerView>,
}

pub open spec fn stickers_view(s: Seq<Sticker>) -> Seq<StickerView> {
    Seq::new(s.len(), |i: int| s[i]@)
}

impl View for Sticker {
    type V = StickerView;

    open spec fn view(&self) -> StickerView {
        StickerView { id: self.id@, desc: self.desc@, content_type: self.content_type@, cid: self.cid@ }
    }
}

impl View for StickerPack {
    type V = StickerPackView;

    open spec fn view(&self) -> StickerPackView {
        StickerPackView { id: self.id@, name: self.name@, stickers: stickers_view(self.stickers@) }
    }
}

/// The text of the first child named `n`, or `dflt`.
pub open spec fn text_or(e: ElementView, n: Seq<char>, dflt: Seq<char>) -> Seq<char> {
    match e.child_named(n) {
        Some(c) => c.text,
        None => dflt,
    }
}

/// The content id of a `<uri>`: its `cid` attribute, else its text after `cid:`.
pub open spec fn uri_cid(u: ElementView) -> Option<Seq<char>> {
    match u.attr("cid"@) {
        Some(c) => Some(c),
        None => if seq_starts_with(u.text, "cid:"@) { Some(u.text.skip(4)) } else { None },
    }
}

/// The sticker an `<item>` describes, when it has an id, a `<file>` and a content id.
pub open spec fn sticker_of(item: ElementView) -> Option<StickerView> {
    match item.attr("id"@) {
        None => None,
        Some(id) => match item.child_named("file"@) {
            None => None,
            Some(file) => match file.child_named("uri"@) {
                None => None,
                Some(u) => match uri_cid(u) {
                    None => None,
                    Some(cid) => Some(
                        StickerView {
                            id,
                            desc: text_or(item, "desc"@, Seq::empty()),
                            content_type: text_or(file, "media-type"@, "image/png"@),
                            cid,
                        },
                    ),
                },
            },
        },
    }
}

/// The stickers of the readable `<item>` elements among `cs`.
pub open spec fn stickers_of(cs: Seq<ElementView>) -> Seq<StickerView>
    decreases cs.len(),
{
    if cs.len() == 0 {
        Seq::empty()
    } else {
        let acc = stickers_of(cs.drop_last());
        let c = cs.last();
        if c.name == "item"@ && sticker_of(c) is Some {
            acc.push(sticker_of(c)->0)
        } else {
            acc
        }
    }
}

/// The message to `to` sending `s` from pack `pack`, under id `id`.
pub open spec fn sticker_message(to: Seq<char>, id: Seq<char>, pack: Seq<char>, s: StickerView) -> ElementView {
    let file = elem("file"@, NS_STICKERS@).with_child(elem("media-type"@, NS_STICKERS@).with_text(s.content_type)).with_child(
        elem("uri"@, NS_STICKERS@).with_text("cid:"@ + s.cid),
    );
    let st = elem("sticker"@, NS_STICKERS@).with_attr("pack"@, pack).with_attr("id"@, s.id).with_child(
        elem("desc"@, NS_STICKERS@).with_text(s.desc),
    ).with_child(file);
    elem("message"@, NS_CLIENT@).with_attr("type"@, "chat"@).with_attr("id"@, id).with_attr("to"@, to).with_child(st)
}

fn text_or_exec(e: &Element, n: &str, dflt: &str) -> (r: String)
    ensures
        r@ == text_or(e@, n@, dflt@),
{
    match e.get_child_named(n) {
        Some(c) => c.text(),
        None => dflt.to_owned(),
    }
}

fn parse_sticker_item(item: &Element) -> (r: Option<Sticker>)
    ensures
        r is None <==> sticker_of(item@) is None,
        r matches Some(s) ==> s@ == sticker_of(item@)->0,
{
    let id = match item.attr("id") {
        Some(i) => i.to_owned(),
        None => return None,
    };
    let file = match item.get_child_named("file") {
        Some(f) => f,
        None => return None,
    };
    let u = match file.get_child_named("uri") {
        Some(u) => u,
        None => return None,
    };
    let cid = match u.attr("cid") {
        Some(c) => c.to_owned(),
        None => {
            let t = u.text();
            let v = chars_of(t.as_str());
            let p = chars_of("cid:");
            proof {
                reveal_strlit("cid:");
            }
            if vec_starts_with(&v, &p) {
                let rest = string_of_range(&v, 4, v.len());
                assert(rest@ =~= u@.text.skip(4));
                rest
            } else {
                return None;
            }
        },
    };
    let desc = match item.get_child_named("desc") {
        Some(d) => d.text(),
        None => String::new(),
    };
    let content_type = text_or_exec(file, "media-type", "image/png");
    Some(Sticker { id, desc, content_type, cid })
}

/// Reads a sticker pack: its id (a fresh one when it has none), its name
/// (`Unnamed Pack` when it has none) and its readable stickers.
pub fn parse_sticker_pack(element: &Element) -> (r: Option<StickerPack>)
    ensures
        r is None <==> !(element@.name == "pack"@ && element@.ns == NS_STICKERS@),
        r matches Some(p) ==> {
            &&& (element@.attr("id"@) matches Some(i) ==> p@.id == i)
            &&& (element@.attr("id"@) is None ==> is_uuid_v4_text(p@.id))
            &&& p@.name == (match element@.child("name"@, NS_STICKERS@) {
                Some(n) => n.text,
                None => "Unnamed Pack"@,
            })
            &&& p@.stickers == stickers_of(element@.children)
        },
{
    if !str_eq(element.name(), "pack") || !str_eq(element.ns(), NS_STICKERS) {
        return None;
    }
    let id = match element.attr("id") {
        Some(i) => i.to_owned(),
        None => new_uuid(),
    };
    let name = match element.get_child("name", NS_STICKERS) {
        Some(n) => n.text(),
        None => "Unnamed Pack".to_owned(),
    };
    let cs = element.children();
    let ghost csv = element@.children;
    let mut stickers: Vec<Sticker> = Vec::new();
    let mut i: usize = 0;
    assert(stickers_view(stickers@) =~= Seq::<StickerView>::empty());
    while i < cs.len()
        invariant
            i <= cs@.len(),
            csv == element@.children,
            cs@.len() == csv.len(),
            forall|j: int| 0 <= j < cs@.len() ==> #[trigger] cs@[j]@ == csv[j],
            stickers_view(stickers@) == stickers_of(csv.take(i as int)),
        decreases cs@.len() - i,
    {
        let c = &cs[i];
        proof {
            assert(csv.take(i + 1).drop_last() =~= csv.take(i as int));
            assert(csv.take(i + 1).last() == c@);
        }
        if str_eq(c.name(), "item") {
            match parse_sticker_item(c) {
                Some(s) => {
                    let ghost before = stickers@;
                    stickers.push(s);
                    assert(stickers_view(stickers@) =~= stickers_view(before).push(s@));
                },
                None => {},
            }
        }
        i += 1;
    }
    assert(csv.take(cs@.len() as int) =~= csv);
    Some(StickerPack { id, name, stickers })
}

/// The message to `to` sending `sticker` from pack `pack_id`, under a fresh id.
pub fn build_sticker_message(to: &str, pack_id: &str, sticker: &Sticker) -> (r: Element)
    ensures
        exists|id: Seq<char>| is_uuid_v4_text(id) && r@ == sticker_message(to@, id, pack_id@, sticker@),
{
    let msg_id = new_uuid();
    let uri_text = concat("cid:", sticker.cid.as_str());
    let file = Element::new("file", NS_STICKERS).with_child(Element::new("media-type", NS_STICKERS).with_text(sticker.content_type.as_str())).with_child(
        Element::new("uri", NS_STICKERS).with_text(uri_text.as_str()),
    );
    let st = Element::new("sticker", NS_STICKERS).with_attr("pack", pack_id).with_attr("id", sticker.id.as_str()).with_child(
        Element::new("desc", NS_STICKERS).with_text(sticker.desc.as_str()),
    ).with_child(file);
    let r = Element::new("message", NS_CLIENT).with_attr("type", "chat").with_attr("id", msg_id.as_str()).with_attr("to", to).with_child(st);
    assert(r@ == sticker_message(to@, msg_id@, pack_id@, sticker@));
    r
}

} // verus!
