//! Spam reporting (XEP-0377).
use vstd::prelude::*;
use crate::util::ext::{is_uuid_v4_text, new_uuid};
use crate::util::xml::{Element, ElementView, elem};
use super::NS_CLIENT;

verus! {

broadcast use crate::util::xml::group_xml;

pub const NS_ABUSE: &'static str = "urn:xmpp:reporting:1";

/// The `<report reason='spam'>` naming `jid`, with the reason text when given.
pub open spec fn report_elem(jid: Seq<char>, reason: Option<Seq<char>>) -> ElementView {
    let r = elem("report"@, NS_ABUSE@).with_attr("reason"@, "spam"@).with_child(elem("jid"@, NS_ABUSE@).with_text(jid));
    match reason {
        Some(t) => r.with_child(elem("text"@, NS_ABUSE@).with_text(t)),
        None => r,
    }
}

/// The report of `jid` as spam, under a fresh id.
pub fn build_spam_report(jid: &str, reason: Option<&str>) -> (r: Element)
    ensures
        exists|id: Seq<char>| {
            &&& is_uuid_v4_text(id)
            &&& r@ == elem("iq"@, NS_CLIENT@).with_attr("type"@, "set"@).with_attr("id"@, id).with_child(
                report_elem(
                    jid@,
                    match reason {
                        Some(t) => Some(t@),
                        None => None,
                    },
                ),
            )
        },
{
    let id = new_uuid();
    let mut report = Element::new("report", NS_ABUSE).with_attr("reason", "spam").with_child(Element::new("jid", NS_ABUSE).with_text(jid));
    match reason {
        Some(t) => report.push_child(Element::new("text", NS_ABUSE).with_text(t)),
        None => {},
    }
    let r = Element::new("iq", NS_CLIENT).with_attr("type", "set").with_attr("id", id.as_str()).with_child(report);
    assert(r@ == elem("iq"@, NS_CLIENT@).with_attr("type"@, "set"@).with_attr("id"@, id@).with_child(
        report_elem(
            jid@,
            match reason {
                Some(t) => Some(t@),
                None => None,
            },
        ),
    ));
    r
}

} // verus!
