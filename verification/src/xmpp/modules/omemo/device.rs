//! OMEMO device lists: our own device id and the PEP stanzas that publish
//! and fetch device lists and bundles.
use vstd::prelude::*;
use crate::util::ext::{is_uuid_v4_text, new_uuid};
use crate::util::strs::{chars_of, concat, dec_str, parse_unsigned, parse_unsigned_chars, str_eq, u64_to_string};
use crate::util::xml::{Element, ElementView, elem, find_desc};
use crate::xmpp::modules::{NS_CLIENT, NS_PUBSUB};

verus! {

broadcast use crate::util::xml::group_xml;

pub const NS_OMEMO_V2: &'static str = "urn:xmpp:omemo:2";
pub const NS_PUBSUB_EVENT: &'static str = "http://jabber.org/protocol/pubsub#event";

/// The PEP node of the device list.
pub const OMEMO_DEVICES_NODE: &'static str = "urn:xmpp:omemo:2:devices";

/// The prefix of a bundle node; `/` and the device id follow.
pub const OMEMO_BUNDLE_NODE_PREFIX: &'static str = "urn:xmpp:omemo:2:bundles";

/// `<devices>` listing `ids` in order.
pub open spec fn devices_elem(ids: Seq<u32>) -> ElementView
    decreases ids.len(),
{
    if ids.len() == 0 {
        elem("devices"@, NS_OMEMO_V2@)
    } else {
        devices_elem(ids.drop_last()).with_child(elem("device"@, NS_OMEMO_V2@).with_attr("id"@, dec_str(ids.last() as nat)))
    }
}

/// The publish `<iq>` for the device list `ids`, under id `id`.
pub open spec fn device_list_publish(id: Seq<char>, ids: Seq<u32>) -> ElementView {
    let item = elem("item"@, NS_PUBSUB@).with_attr("id"@, "current"@).with_child(devices_elem(ids));
    let publish = elem("publish"@, NS_PUBSUB@).with_attr("node"@, OMEMO_DEVICES_NODE@).with_child(item);
    elem("iq"@, NS_CLIENT@).with_attr("type"@, "set"@).with_attr("id"@, id).with_child(elem("pubsub"@, NS_PUBSUB@).with_child(publish))
}

/// The items request for `node` at `to`, under id `id`.
pub open spec fn items_fetch(id: Seq<char>, to: Seq<char>, node: Seq<char>) -> ElementView {
    elem("iq"@, NS_CLIENT@).with_attr("type"@, "get"@).with_attr("to"@, to).with_attr("id"@, id).with_child(
        elem("pubsub"@, NS_PUBSUB@).with_child(elem("items"@, NS_PUBSUB@).with_attr("node"@, node)),
    )
}

/// The ids of the `<device>` children among `cs` whose `id` reads as a `u32`.
pub open spec fn device_ids(cs: Seq<ElementView>) -> Seq<u32>
    decreases cs.len(),
{
    if cs.len() == 0 {
        Seq::empty()
    } else {
        let acc = device_ids(cs.drop_last());
        let c = cs.last();
        if c.name == "device"@ && c.ns == NS_OMEMO_V2@ && c.attr("id"@) is Some && parse_unsigned(c.attr("id"@)->0, 0xffff_ffff) is Some {
            acc.push(parse_unsigned(c.attr("id"@)->0, 0xffff_ffff)->0 as u32)
        } else {
            acc
        }
    }
}

/// The sender of a device-list event, when `message` is one.
pub open spec fn device_list_event(message: ElementView) -> Option<Seq<char>> {
    match message.child("event"@, NS_PUBSUB_EVENT@) {
        None => None,
        Some(event) => match event.child("items"@, NS_PUBSUB_EVENT@) {
            None => None,
            Some(items) => if items.attr("node"@) == Some(OMEMO_DEVICES_NODE@) {
                message.attr("from"@)
            } else {
                None
            },
        },
    }
}

/// Our own device id; zero until OMEMO is enabled.
#[derive(Debug, Default)]
pub struct DeviceManager {
    own_device_id: u32,
}

impl DeviceManager {
    pub closed spec fn device_id(&self) -> u32 {
        self.own_device_id
    }

    pub fn new() -> (r: Self)
        ensures
            r.device_id() == 0,
    {
        DeviceManager { own_device_id: 0 }
    }

    pub fn set_own_device_id(&mut self, id: u32)
        ensures
            final(self).device_id() == id,
    {
        self.own_device_id = id;
    }

    pub fn own_device_id(&self) -> (r: u32)
        ensures
            r == self.device_id(),
    {
        self.own_device_id
    }

    /// The request publishing the device list `devices`, under a fresh id.
    pub fn build_device_list_publish(&self, devices: &[u32]) -> (r: Element)
        ensures
            exists|id: Seq<char>| is_uuid_v4_text(id) && r@ == device_list_publish(id, devices@),
    {
        let id = new_uuid();
        let mut list = Element::new("devices", NS_OMEMO_V2);
        let mut i: usize = 0;
        while i < devices.len()
            invariant
                i <= devices@.len(),
                list@ == devices_elem(devices@.take(i as int)),
            decreases devices.len() - i,
        {
            proof {
                assert(devices@.take(i + 1).drop_last() =~= devices@.take(i as int));
                assert(devices@.take(i + 1).last() == devices@[i as int]);
            }
            let t = u64_to_string(devices[i] as u64);
            list.push_child(Element::new("device", NS_OMEMO_V2).with_attr("id", t.as_str()));
            i += 1;
        }
        assert(devices@.take(i as int) =~= devices@);
        let item = Element::new("item", NS_PUBSUB).with_attr("id", "current").with_child(list);
        let publish = Element::new("publish", NS_PUBSUB).with_attr("node", OMEMO_DEVICES_NODE).with_child(item);
        let r = Element::new("iq", NS_CLIENT).with_attr("type", "set").with_attr("id", id.as_str()).with_child(
            Element::new("pubsub", NS_PUBSUB).with_child(publish),
        );
        assert(r@ == device_list_publish(id@, devices@));
        r
    }

    /// The request for the device list of `peer_jid`, under a fresh id.
    pub fn build_device_list_fetch(&self, peer_jid: &str) -> (r: (String, Element))
        ensures
            is_uuid_v4_text(r.0@),
            r.1@ == items_fetch(r.0@, peer_jid@, OMEMO_DEVICES_NODE@),
    {
        let id = new_uuid();
        let iq = fetch_iq(id.as_str(), peer_jid, OMEMO_DEVICES_NODE);
        (id, iq)
    }

    /// The request for the bundle of device `device_id` of `peer_jid`, under a fresh id.
    pub fn build_bundle_fetch(&self, peer_jid: &str, device_id: u32) -> (r: (String, Element))
        ensures
            is_uuid_v4_text(r.0@),
            r.1@ == items_fetch(r.0@, peer_jid@, OMEMO_BUNDLE_NODE_PREFIX@ + "/"@ + dec_str(device_id as nat)),
    {
        let id = new_uuid();
        let a = concat(OMEMO_BUNDLE_NODE_PREFIX, "/");
        let t = u64_to_string(device_id as u64);
        let node = concat(a.as_str(), t.as_str());
        let iq = fetch_iq(id.as_str(), peer_jid, node.as_str());
        (id, iq)
    }

    /// The device ids of the first `<devices>` element found walking `element`
    /// depth-first; ids that do not read as numbers are skipped, and with no
    /// `<devices>` the list is empty.
    pub fn parse_device_list(element: &Element) -> (r: Vec<u32>)
        ensures
            r@ == (match find_desc(element@, "devices"@, NS_OMEMO_V2@) {
                Some(d) => device_ids(d.children),
                None => Seq::empty(),
            }),
    {
        let devices = match element.find_descendant("devices", NS_OMEMO_V2) {
            Some(d) => d,
            None => return Vec::new(),
        };
        let cs = devices.children();
        let ghost csv = devices@.children;
        let mut ids: Vec<u32> = Vec::new();
        let mut i: usize = 0;
        while i < cs.len()
            invariant
                i <= cs@.len(),
                csv == devices@.children,
                cs@.len() == csv.len(),
                forall|j: int| 0 <= j < cs@.len() ==> #[trigger] cs@[j]@ == csv[j],
                ids@ == device_ids(csv.take(i as int)),
            decreases cs@.len() - i,
        {
            let c = &cs[i];
            proof {
                assert(csv.take(i + 1).drop_last() =~= csv.take(i as int));
                assert(csv.take(i + 1).last() == c@);
            }
            if str_eq(c.name(), "device") && str_eq(c.ns(), NS_OMEMO_V2) {
                match c.attr("id") {
                    Some(s) => {
                        let v = chars_of(s);
                        assert(v@.skip(0) =~= v@);
                        match parse_unsigned_chars(&v, 0, 0xffff_ffff) {
                            Some(n) => ids.push(n as u32),
                            None => {},
                        }
                    },
                    None => {},
                }
            }
            i += 1;
        }
        assert(csv.take(cs@.len() as int) =~= csv);
        ids
    }

    /// The sender of a PEP event that updates a device list.
    pub fn is_device_list_event(message: &Element) -> (r: Option<String>)
        ensures
            r is None <==> device_list_event(message@) is None,
            r matches Some(j) ==> device_list_event(message@) == Some(j@),
    {
        let event = match message.get_child("event", NS_PUBSUB_EVENT) {
            Some(e) => e,
            None => return None,
        };
        let items = match event.get_child("items", NS_PUBSUB_EVENT) {
            Some(i) => i,
            None => return None,
        };
        match items.attr("node") {
            Some(n) => {
                if !str_eq(n, OMEMO_DEVICES_NODE) {
                    return None;
                }
            },
            None => return None,
        }
        match message.attr("from") {
            Some(f) => Some(f.to_owned()),
            None => None,
        }
    }
}

fn fetch_iq(id: &str, to: &str, node: &str) -> (r: Element)
    ensures
        r@ == items_fetch(id@, to@, node@),
{
    Element::new("iq", NS_CLIENT).with_attr("type", "get").with_attr("to", to).with_attr("id", id).with_child(
        Element::new("pubsub", NS_PUBSUB).with_child(Element::new("items", NS_PUBSUB).with_attr("node", node)),
    )
}

} // verus!
