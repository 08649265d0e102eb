//! Room administration (XEP-0045): changing affiliations and roles.
use vstd::prelude::*;
use crate::util::ext::{is_uuid_v4_text, new_uuid};
use crate::util::strs::concat;
use crate::util::xml::{Element, ElementView, elem};
use super::{NS_CLIENT, NS_MUC_ADMIN};

verus! {

broadcast use crate::util::xml::group_xml;

/// A change of someone's affiliation with a room.
#[derive(Debug, Clone)]
pub enum AffiliationAction {
    GrantOwner(String),
    GrantAdmin(String),
    GrantMember(String),
    RevokeMembership(String),
    Ban(String),
    Unban(String),
}

/// The affiliation an action sets, and whom it concerns.
pub open spec fn action_target(a: AffiliationAction) -> (Seq<char>, Seq<char>) {
    match a {
        AffiliationAction::GrantOwner(j) => ("owner"@, j@),
        AffiliationAction::GrantAdmin(j) => ("admin"@, j@),
        AffiliationAction::GrantMember(j) => ("member"@, j@),
        AffiliationAction::RevokeMembership(j) => ("none"@, j@),
        AffiliationAction::Ban(j) => ("outcast"@, j@),
        AffiliationAction::Unban(j) => ("none"@, j@),
    }
}

/// The admin `<iq type='set'>` with id `id` to `room` carrying `item`.
pub open spec fn admin_iq(id: Seq<char>, room: Seq<char>, item: ElementView) -> ElementView {
    elem("iq"@, NS_CLIENT@).with_attr("id"@, id).with_attr("to"@, room).with_attr("type"@, "set"@).with_child(
        elem("query"@, NS_MUC_ADMIN@).with_child(item),
    )
}

/// Builds room administration requests.
#[derive(Debug, Clone)]
pub struct MucAdminManager;

impl MucAdminManager {
    pub fn new() -> (r: Self) {
        MucAdminManager
    }

    /// The request applying `action` in `room_jid`; its id is `muc-affil-` and a fresh UUID.
    pub fn build_affiliation_query(&mut self, room_jid: &str, action: AffiliationAction) -> (r: (String, Element))
        ensures
            exists|u: Seq<char>| is_uuid_v4_text(u) && r.0@ == "muc-affil-"@ + u,
            ({
                let (aff, jid) = action_target(action);
                r.1@ == admin_iq(r.0@, room_jid@, elem("item"@, NS_MUC_ADMIN@).with_attr("affiliation"@, aff).with_attr("jid"@, jid))
            }),
    {
        let u = new_uuid();
        let query_id = concat("muc-affil-", u.as_str());
        let (affiliation, jid): (&str, &String) = match &action {
            AffiliationAction::GrantOwner(j) => ("owner", j),
            AffiliationAction::GrantAdmin(j) => ("admin", j),
            AffiliationAction::GrantMember(j) => ("member", j),
            AffiliationAction::RevokeMembership(j) => ("none", j),
            AffiliationAction::Ban(j) => ("outcast", j),
            AffiliationAction::Unban(j) => ("none", j),
        };
        let item = Element::new("item", NS_MUC_ADMIN).with_attr("affiliation", affiliation).with_attr("jid", jid.as_str());
        let iq = Element::new("iq", NS_CLIENT).with_attr("id", query_id.as_str()).with_attr("to", room_jid).with_attr(
            "type",
            "set",
        ).with_child(Element::new("query", NS_MUC_ADMIN).with_child(item));
        (query_id, iq)
    }

    /// The request giving `nick` the role `role` in `room_jid`; its id is `muc-role-` and a fresh UUID.
    pub fn build_role_query(&mut self, room_jid: &str, nick: &str, role: &str) -> (r: (String, Element))
        ensures
            exists|u: Seq<char>| is_uuid_v4_text(u) && r.0@ == "muc-role-"@ + u,
            r.1@ == admin_iq(r.0@, room_jid@, elem("item"@, NS_MUC_ADMIN@).with_attr("nick"@, nick@).with_attr("role"@, role@)),
    {
        let u = new_uuid();
        let query_id = concat("muc-role-", u.as_str());
        let item = Element::new("item", NS_MUC_ADMIN).with_attr("nick", nick).with_attr("role", role);
        let iq = Element::new("iq", NS_CLIENT).with_attr("id", query_id.as_str()).with_attr("to", room_jid).with_attr(
            "type",
            "set",
        ).with_child(Element::new("query", NS_MUC_ADMIN).with_child(item));
        (query_id, iq)
    }
}

} // verus!
