//! Changes to sent messages: reactions (XEP-0444), corrections (XEP-0308)
//! and retractions (XEP-0424).
use vstd::prelude::*;
use crate::util::ext::{is_uuid_v4_text, new_uuid};
use crate::util::strs::str_eq;
use crate::util::xml::{Element, ElementView, elem};
use super::NS_CLIENT;

verus! {

broadcast use crate::util::xml::group_xml;

pub const NS_REACTIONS: &'static str = "urn:xmpp:reactions:0";
pub const NS_CORRECTION: &'static str = "urn:xmpp:message-correct:0";
pub const NS_RETRACTION: &'static str = "urn:xmpp:message-retract:1";
pub const NS_FASTEN: &'static str = "urn:xmpp:fasten:0";

/// The whole set of reactions of one sender to one message.
#[derive(Debug, Clone, PartialEq)]
pub struct ReactionUpdate {
    pub target_id: String,
    pub from_jid: String,
    pub emojis: Vec<String>,
}

/// A replacement of the body of an earlier message.
#[derive(Debug, Clone, PartialEq)]
pub struct Correction {
    pub target_id: String,
    pub from_jid: String,
    pub new_body: String,
}

/// The retraction of an earlier message.
#[derive(Debug, Clone, PartialEq)]
pub struct Retraction {
    pub target_id: String,
    pub from_jid: String,
}

#[verifier::ext_equal]
pub struct ReactionUpdateView {
    pub target_id: Seq<char>,
    pub from_jid: Seq<char>,
    pub emojis: Seq<Seq<char>>,
}

pub struct CorrectionView {
    pub target_id: Seq<char>,
    pub from_jid: Seq<char>,
    pub new_body: Seq<char>,
}

pub struct RetractionView {
    pub target_id: Seq<char>,
    pub from_jid: Seq<char>,
}

pub open spec fn strings_view(s: Seq<String>) -> Seq<Seq<char>> {
    Seq::new(s.len(), |i: int| s[i]@)
}

pub open spec fn strs_view(s: Seq<&str>) -> Seq<Seq<char>> {
    Seq::new(s.len(), |i: int| s[i]@)
}

impl View for ReactionUpdate {
    type V = ReactionUpdateView;

    open spec fn view(&self) -> ReactionUpdateView {
        ReactionUpdateView { target_id: self.target_id@, from_jid: self.from_jid@, emojis: strings_view(self.emojis@) }
    }
}

impl View for Correction {
    type V = CorrectionView;

    open spec fn view(&self) -> CorrectionView {
        CorrectionView { target_id: self.target_id@, from_jid: self.from_jid@, new_body: self.new_body@ }
    }
}

impl View for Retraction {
    type V = RetractionView;

    open spec fn view(&self) -> RetractionView {
        RetractionView { target_id: self.target_id@, from_jid: self.from_jid@ }
    }
}

/// `<reactions id=..>` with one `<reaction>` per emoji, in order.
pub open spec fn reactions_elem(target: Seq<char>, emojis: Seq<Seq<char>>) -> ElementView
    decreases emojis.len(),
{
    if emojis.len() == 0 {
        elem("reactions"@, NS_REACTIONS@).with_attr("id"@, target)
    } else {
        reactions_elem(target, emojis.drop_last()).with_child(elem("reaction"@, NS_REACTIONS@).with_text(emojis.last()))
    }
}

/// The chat message to `to` carrying `reactions`.
pub open spec fn reaction_message(to: Seq<char>, target: Seq<char>, emojis: Seq<Seq<char>>) -> ElementView {
    elem("message"@, NS_CLIENT@).with_attr("to"@, to).with_attr("type"@, "chat"@).with_child(reactions_elem(target, emojis))
}

/// The correction message with id `id` replacing message `original` by `body`.
pub open spec fn correction_message(to: Seq<char>, id: Seq<char>, original: Seq<char>, body: Seq<char>) -> ElementView {
    elem("message"@, NS_CLIENT@).with_attr("to"@, to).with_attr("type"@, "chat"@).with_attr("id"@, id).with_child(
        elem("body"@, NS_CLIENT@).with_text(body),
    ).with_child(elem("replace"@, NS_CORRECTION@).with_attr("id"@, original))
}

/// The retraction message with id `id` of message `origin`.
pub open spec fn retraction_message(to: Seq<char>, id: Seq<char>, origin: Seq<char>) -> ElementView {
    elem("message"@, NS_CLIENT@).with_attr("to"@, to).with_attr("type"@, "chat"@).with_attr("id"@, id).with_child(
        elem("apply-to"@, NS_FASTEN@).with_attr("id"@, origin).with_child(elem("retract"@, NS_RETRACTION@)),
    )
}

/// The texts of the `<reaction>` elements among `cs`.
pub open spec fn reactions_of(cs: Seq<ElementView>) -> Seq<Seq<char>>
    decreases cs.len(),
{
    if cs.len() == 0 {
        Seq::empty()
    } else if cs.last().name == "reaction"@ {
        reactions_of(cs.drop_last()).push(cs.last().text)
    } else {
        reactions_of(cs.drop_last())
    }
}

/// The reaction update that a message from `from` carries.
pub open spec fn parsed_reaction(from: Seq<char>, el: ElementView) -> Option<ReactionUpdateView> {
    if el.name != "message"@ {
        None
    } else {
        match el.child("reactions"@, NS_REACTIONS@) {
            None => None,
            Some(r) => match r.attr("id"@) {
                None => None,
                Some(target) => Some(ReactionUpdateView { target_id: target, from_jid: from, emojis: reactions_of(r.children) }),
            },
        }
    }
}

/// The correction that a message from `from` carries.
pub open spec fn parsed_correction(from: Seq<char>, el: ElementView) -> Option<CorrectionView> {
    if el.name != "message"@ {
        None
    } else {
        match el.child("replace"@, NS_CORRECTION@) {
            None => None,
            Some(r) => match r.attr("id"@) {
                None => None,
                Some(target) => match el.child_named("body"@) {
                    None => None,
                    Some(b) => Some(CorrectionView { target_id: target, from_jid: from, new_body: b.text }),
                },
            },
        }
    }
}

/// The retraction that a message from `from` carries.
pub open spec fn parsed_retraction(from: Seq<char>, el: ElementView) -> Option<RetractionView> {
    if el.name != "message"@ {
        None
    } else {
        match el.child("apply-to"@, NS_FASTEN@) {
            None => None,
            Some(a) => match a.attr("id"@) {
                None => None,
                Some(target) => match a.child("retract"@, NS_RETRACTION@) {
                    None => None,
                    Some(_) => Some(RetractionView { target_id: target, from_jid: from }),
                },
            },
        }
    }
}

/// Builds and reads message changes.
pub struct MutationManager;

impl MutationManager {
    pub fn new() -> (r: Self) {
        MutationManager
    }

    /// The message setting our reactions to `target_message_id` to `emojis`.
    pub fn build_reaction(&self, to_jid: &str, target_message_id: &str, emojis: &[&str]) -> (r: Element)
        ensures
            r@ == reaction_message(to_jid@, target_message_id@, strs_view(emojis@)),
    {
        let ghost ev = strs_view(emojis@);
        let mut reactions = Element::new("reactions", NS_REACTIONS).with_attr("id", target_message_id);
        let mut i: usize = 0;
        while i < emojis.len()
            invariant
                i <= emojis@.len(),
                ev == strs_view(emojis@),
                reactions@ == reactions_elem(target_message_id@, ev.take(i as int)),
            decreases emojis.len() - i,
        {
            proof {
                assert(ev.take(i + 1).drop_last() =~= ev.take(i as int));
                assert(ev.take(i + 1).last() == emojis@[i as int]@);
            }
            reactions.push_child(Element::new("reaction", NS_REACTIONS).with_text(emojis[i]));
            i += 1;
        }
        assert(ev.take(i as int) =~= ev);
        Element::new("message", NS_CLIENT).with_attr("to", to_jid).with_attr("type", "chat").with_child(reactions)
    }

    /// Reads the reactions that a message from `from_jid` carries.
    pub fn parse_reaction(&self, from_jid: &str, el: &Element) -> (r: Option<ReactionUpdate>)
        ensures
            r is None <==> parsed_reaction(from_jid@, el@) is None,
            r matches Some(u) ==> u@ == parsed_reaction(from_jid@, el@)->0,
    {
        if !str_eq(el.name(), "message") {
            return None;
        }
        let reactions = match el.get_child("reactions", NS_REACTIONS) {
            Some(r) => r,
            None => return None,
        };
        let target_id = match reactions.attr("id") {
            Some(t) => t.to_owned(),
            None => return None,
        };
        let cs = reactions.children();
        let ghost csv = reactions@.children;
        let mut emojis: Vec<String> = Vec::new();
        let mut i: usize = 0;
        assert(strings_view(emojis@) =~= Seq::<Seq<char>>::empty());
        while i < cs.len()
            invariant
                i <= cs@.len(),
                csv == reactions@.children,
                cs@.len() == csv.len(),
                forall|j: int| 0 <= j < cs@.len() ==> #[trigger] cs@[j]@ == csv[j],
                strings_view(emojis@) == reactions_of(csv.take(i as int)),
            decreases cs@.len() - i,
        {
            let c = &cs[i];
            proof {
                assert(csv.take(i + 1).drop_last() =~= csv.take(i as int));
                assert(csv.take(i + 1).last() == c@);
            }
            if str_eq(c.name(), "reaction") {
                let ghost before = emojis@;
                let t = c.text();
                emojis.push(t);
                assert(strings_view(emojis@) =~= strings_view(before).push(c@.text));
            }
            i += 1;
        }
        assert(csv.take(cs@.len() as int) =~= csv);
        Some(ReactionUpdate { target_id, from_jid: from_jid.to_owned(), emojis })
    }

    /// The message replacing message `original_id` by `new_body`, under a fresh id.
    pub fn build_correction(&self, to_jid: &str, original_id: &str, new_body: &str) -> (r: Element)
        ensures
            exists|id: Seq<char>| is_uuid_v4_text(id) && r@ == correction_message(to_jid@, id, original_id@, new_body@),
    {
        let new_id = new_uuid();
        let r = Element::new("message", NS_CLIENT).with_attr("to", to_jid).with_attr("type", "chat").with_attr(
            "id",
            new_id.as_str(),
        ).with_child(Element::new("body", NS_CLIENT).with_text(new_body)).with_child(
            Element::new("replace", NS_CORRECTION).with_attr("id", original_id),
        );
        assert(r@ == correction_message(to_jid@, new_id@, original_id@, new_body@));
        r
    }

    /// Reads the correction that a message from `from_jid` carries.
    pub fn parse_correction(&self, from_jid: &str, el: &Element) -> (r: Option<Correction>)
        ensures
            r is None <==> parsed_correction(from_jid@, el@) is None,
            r matches Some(c) ==> c@ == parsed_correction(from_jid@, el@)->0,
    {
        if !str_eq(el.name(), "message") {
            return None;
        }
        let replace = match el.get_child("replace", NS_CORRECTION) {
            Some(r) => r,
            None => return None,
        };
        let target_id = match replace.attr("id") {
            Some(t) => t.to_owned(),
            None => return None,
        };
        let body = match el.get_child_named("body") {
            Some(b) => b.text(),
            None => return None,
        };
        Some(Correction { target_id, from_jid: from_jid.to_owned(), new_body: body })
    }

    /// The message retracting message `origin_id`, under a fresh id.
    pub fn build_retraction(&self, to_jid: &str, origin_id: &str) -> (r: Element)
        ensures
            exists|id: Seq<char>| is_uuid_v4_text(id) && r@ == retraction_message(to_jid@, id, origin_id@),
    {
        let new_id = new_uuid();
        let apply_to = Element::new("apply-to", NS_FASTEN).with_attr("id", origin_id).with_child(Element::new("retract", NS_RETRACTION));
        let r = Element::new("message", NS_CLIENT).with_attr("to", to_jid).with_attr("type", "chat").with_attr(
            "id",
            new_id.as_str(),
        ).with_child(apply_to);
        assert(r@ == retraction_message(to_jid@, new_id@, origin_id@));
        r
    }

    /// Reads the retraction that a message from `from_jid` carries.
    pub fn parse_retraction(&self, from_jid: &str, el: &Element) -> (r: Option<Retraction>)
        ensures
            r is None <==> parsed_retraction(from_jid@, el@) is None,
            r matches Some(x) ==> x@ == parsed_retraction(from_jid@, el@)->0,
    {
        if !str_eq(el.name(), "message") {
            return None;
        }
        let apply_to = match el.get_child("apply-to", NS_FASTEN) {
            Some(a) => a,
            None => return None,
        };
        let target_id = match apply_to.attr("id") {
            Some(t) => t.to_owned(),
            None => return None,
        };
        match apply_to.get_child("retract", NS_RETRACTION) {
            Some(_) => {},
            None => return None,
        }
        Some(Retraction { target_id, from_jid: from_jid.to_owned() })
    }
}

proof fn lemma_reactions_roundtrip(target: Seq<char>, emojis: Seq<Seq<char>>)
    ensures
        reactions_of(reactions_elem(target, emojis).children) == emojis,
        reactions_elem(target, emojis).attr("id"@) == Some(target),
        reactions_elem(target, emojis).name == "reactions"@,
        reactions_elem(target, emojis).ns == NS_REACTIONS@,
    decreases emojis.len(),
{
    if emojis.len() > 0 {
        lemma_reactions_roundtrip(target, emojis.drop_last());
        let ch = reactions_elem(target, emojis).children;
        assert(ch.drop_last() =~= reactions_elem(target, emojis.drop_last()).children);
        assert(emojis.drop_last().push(emojis.last()) =~= emojis);
    } else {
        assert(reactions_elem(target, emojis).children =~= Seq::<ElementView>::empty());
        assert(emojis =~= Seq::<Seq<char>>::empty());
    }
}

/// A reaction message, read back as coming from `from`, gives the target
/// and the emojis it was built with, in order.
pub proof fn law_reaction_roundtrip(to: Seq<char>, target: Seq<char>, emojis: Seq<Seq<char>>, from: Seq<char>)
    ensures
        parsed_reaction(from, reaction_message(to, target, emojis)) == Some(
            ReactionUpdateView { target_id: target, from_jid: from, emojis },
        ),
{
    lemma_reactions_roundtrip(target, emojis);
}

/// A correction message, read back, gives the corrected message and the new body.
pub proof fn law_correction_roundtrip(to: Seq<char>, id: Seq<char>, original: Seq<char>, body: Seq<char>, from: Seq<char>)
    ensures
        parsed_correction(from, correction_message(to, id, original, body)) == Some(
            CorrectionView { target_id: original, from_jid: from, new_body: body },
        ),
{
    reveal_strlit("body");
    reveal_strlit("replace");
    assert("body"@.len() == 4);
    assert("replace"@.len() == 7);
    assert("body"@ != "replace"@);
}

/// A retraction message, read back, gives the retracted message.
pub proof fn law_retraction_roundtrip(to: Seq<char>, id: Seq<char>, origin: Seq<char>, from: Seq<char>)
    ensures
        parsed_retraction(from, retraction_message(to, id, origin)) == Some(RetractionView { target_id: origin, from_jid: from }),
{
}

} // verus!
