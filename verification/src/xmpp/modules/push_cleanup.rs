//! Requests that stop push notifications (XEP-0357), for one subscription or all.
use vstd::prelude::*;
use crate::util::ext::{is_uuid_v4_text, new_uuid};
use crate::util::xml::{Element, ElementView, elem};
use super::NS_CLIENT;
use super::push::{NS_PUSH, disable_payload, set_iq};

verus! {

broadcast use crate::util::xml::group_xml;

/// Builds push-disable requests.
pub struct PushCleanup;

impl PushCleanup {
    pub fn new() -> (r: Self) {
        PushCleanup
    }

    /// The request disabling the subscription `node` at `push_service_jid`, under a fresh id.
    pub fn build_disable_iq(&self, push_service_jid: &str, node: &str) -> (r: Element)
        ensures
            exists|id: Seq<char>| is_uuid_v4_text(id) && r@ == set_iq(id, disable_payload(push_service_jid@, node@)),
    {
        let iq_id = new_uuid();
        let disable = Element::new("disable", NS_PUSH).with_attr("jid", push_service_jid).with_attr("node", node);
        let r = Element::new("iq", NS_CLIENT).with_attr("type", "set").with_attr("id", iq_id.as_str()).with_child(disable);
        assert(r@ == set_iq(iq_id@, disable_payload(push_service_jid@, node@)));
        r
    }

    /// The request disabling every subscription, under a fresh id.
    pub fn build_disable_all_iq(&self) -> (r: Element)
        ensures
            exists|id: Seq<char>| is_uuid_v4_text(id) && r@ == set_iq(id, elem("disable"@, NS_PUSH@)),
    {
        let iq_id = new_uuid();
        let r = Element::new("iq", NS_CLIENT).with_attr("type", "set").with_attr("id", iq_id.as_str()).with_child(
            Element::new("disable", NS_PUSH),
        );
        assert(r@ == set_iq(iq_id@, elem("disable"@, NS_PUSH@)));
        r
    }
}

} // verus!
