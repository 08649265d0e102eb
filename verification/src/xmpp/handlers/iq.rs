//! Incoming `<iq/>` stanzas: answers to the requests the modules sent, and
//! the pushes the server sends on its own.
use vstd::prelude::*;
use crate::util::order::{strictly_sorted, strings_view};
use crate::util::strs::{chars_of, seq_starts_with, string_of_range, str_eq, vec_starts_with};
use crate::util::xml::{Element, ElementView, attr_either, first_such, lemma_children_view, lemma_first_such_skip};
use crate::xmpp::modules::account::{AccountIqKind, AccountManager};
use crate::xmpp::modules::adhoc::{AdhocManager, NS_ADHOC, response_of};
use crate::xmpp::modules::avatar::{AvatarManager, NS_AVATAR_DATA, data_result, decoded_text, photo_bytes, vcard_photo};
use crate::xmpp::modules::blocking::{BlockingManager, NS_BLOCKING, item_jids};
use crate::xmpp::modules::bob::{parse_bob_data, parsed_bob};
use crate::xmpp::modules::bookmarks::{BookmarkManager, NS_PRIVATE, parsed_bookmarks};
use crate::xmpp::modules::catchup::{CatchupManager, CatchupStateView};
use crate::xmpp::modules::conversation_sync::{ConversationSyncManager, conversations_of, find_conversations};
use crate::xmpp::modules::disco::{DiscoItemView, DiscoManager, NS_DISCO_INFO, NS_DISCO_ITEMS, info_of, items_of};
use crate::xmpp::modules::file_upload::{FileUploadManager, slot_of};
use crate::xmpp::modules::ignore::{IgnoreManager, find_ignored, user_jids};
use crate::xmpp::modules::mam::MamManager;
use crate::xmpp::modules::muc_config::{MucConfigManager, parsed_config};
use crate::xmpp::modules::omemo::bundle::{OmemoBundle, OmemoBundleView, OmemoManager, parse_bundle, parsed_bundle};
use crate::xmpp::modules::omemo::device::{DeviceManager, NS_OMEMO_V2, device_ids};
use crate::xmpp::modules::sync::SyncOrchestrator;
use crate::xmpp::modules::vcard_edit::{VCardEditManager, fields_of};
use crate::xmpp::modules::{NS_MAM, NS_MUC_OWNER, NS_PUBSUB, NS_VCARD};
use crate::xmpp::{RosterContact, RosterContactView, XmppEvent, XmppEventView, views};
use super::message::{attr_or_empty, one};
use super::SessionState;
use crate::xmpp::modules::avatar::{AvatarInfoView, DEFAULT_MIME, photo_mime};
use crate::util::xml::find_desc;

verus! {

broadcast use crate::util::xml::group_xml;

/// The roster namespace (RFC 6121).
pub const NS_ROSTER: &'static str = "jabber:iq:roster";

/// Node prefix of the per-room ignore lists in private PubSub storage.
pub const IGNORE_NODE_PREFIX: &'static str = "rexisce:ignore:";

/// Node of the conversation list in private PubSub storage.
pub const CONVERSATIONS_NODE: &'static str = "rexisce:conversations";

/// Id prefix of room-configuration submissions.
pub const CONFIG_SUBMIT_PREFIX: &'static str = "muc-config-submit-";

/// The conversation reported for archive queries that no catch-up started.
pub const SERVER_CONVERSATION: &'static str = "__server__";

/// What the engine still has to do with the OMEMO store for an answer.
#[derive(Debug)]
pub enum OmemoFollowUp {
    /// A peer's device list arrived: sync the store, then fetch the bundles
    /// of the devices without a session.
    DeviceList { peer_jid: String, devices: Vec<u32> },
    /// A device's key bundle arrived (or could not be read): build a session.
    Bundle { peer_jid: String, device_id: u32, bundle: Option<OmemoBundle> },
}

pub enum OmemoFollowUpView {
    DeviceList { peer_jid: Seq<char>, devices: Seq<u32> },
    Bundle { peer_jid: Seq<char>, device_id: u32, bundle: Option<OmemoBundleView> },
}

impl View for OmemoFollowUp {
    type V = OmemoFollowUpView;

    open spec fn view(&self) -> OmemoFollowUpView {
        match self {
            OmemoFollowUp::DeviceList { peer_jid, devices } => OmemoFollowUpView::DeviceList { peer_jid: peer_jid@, devices: devices@ },
            OmemoFollowUp::Bundle { peer_jid, device_id, bundle } => OmemoFollowUpView::Bundle {
                peer_jid: peer_jid@,
                device_id: *device_id,
                bundle: match bundle {
                    Some(b) => Some(b@),
                    None => None,
                },
            },
        }
    }
}

/// The events an `<iq/>` gives, and the OMEMO work it leaves.
pub struct IqOutcome {
    pub events: Vec<XmppEvent>,
    pub omemo: Option<OmemoFollowUp>,
}

pub open spec fn opt_follow_up(o: Option<OmemoFollowUp>) -> Option<OmemoFollowUpView> {
    match o {
        Some(f) => Some(f@),
        None => None,
    }
}

// ---------------------------------------------------------------------------
// Reading the stanza
// ---------------------------------------------------------------------------

pub open spec fn is_result(e: ElementView) -> bool {
    e.attr("type"@) == Some("result"@)
}

pub open spec fn has(e: ElementView, n: Seq<char>, ns: Seq<char>) -> bool {
    e.child(n, ns) is Some
}

/// A `<pubsub/>` child holding the items of `node`.
pub open spec fn pubsub_with(node: Seq<char>) -> spec_fn(ElementView) -> bool {
    |c: ElementView| c.name == "pubsub"@ && c.ns == NS_PUBSUB@ && first_such(c.children, attr_either("items"@, "node"@, node, node)) is Some
}

pub open spec fn has_pubsub_items(e: ElementView, node: Seq<char>) -> bool {
    first_such(e.children, pubsub_with(node)) is Some
}

/// `<items/>` of a per-room ignore list.
pub open spec fn ignore_items() -> spec_fn(ElementView) -> bool {
    |i: ElementView| i.name == "items"@ && (i.attr("node"@) matches Some(n) && seq_starts_with(n, IGNORE_NODE_PREFIX@))
}

pub open spec fn pubsub_with_ignore() -> spec_fn(ElementView) -> bool {
    |c: ElementView| c.name == "pubsub"@ && c.ns == NS_PUBSUB@ && first_such(c.children, ignore_items()) is Some
}

/// The room of the ignore list that the result carries.
pub open spec fn ignore_room(e: ElementView) -> Option<Seq<char>> {
    match first_such(e.children, pubsub_with_ignore()) {
        Some(p) => Some(first_such(p.children, ignore_items())->0.attr("node"@)->0.skip(IGNORE_NODE_PREFIX@.len() as int)),
        None => None,
    }
}

/// A `<prefs/>` archiving-preferences child with a default mode.
pub open spec fn prefs_with_default() -> spec_fn(ElementView) -> bool {
    |c: ElementView| c.name == "prefs"@ && c.ns == NS_MAM@ && c.attr("default"@) is Some
}

pub open spec fn prefs_default(e: ElementView) -> Option<Seq<char>> {
    match first_such(e.children, prefs_with_default()) {
        Some(p) => p.attr("default"@),
        None => None,
    }
}

pub open spec fn first_child_is(e: ElementView, n: Seq<char>) -> bool {
    e.children.len() > 0 && e.children[0].name == n
}

/// The name under which a roster subscription state is reported.
pub open spec fn subscription_name(s: Option<Seq<char>>) -> Option<Seq<char>> {
    match s {
        None => Some("None"@),
        Some(v) => if v == "none"@ {
            Some("None"@)
        } else if v == "from"@ {
            Some("From"@)
        } else if v == "to"@ {
            Some("To"@)
        } else if v == "both"@ {
            Some("Both"@)
        } else if v == "remove"@ {
            Some("Remove"@)
        } else {
            None
        },
    }
}

/// A roster item as a contact, when it is a well-formed item.
pub open spec fn roster_contact(c: ElementView) -> Option<RosterContactView> {
    if c.name == "item"@ && c.ns == NS_ROSTER@ {
        match (c.attr("jid"@), subscription_name(c.attr("subscription"@))) {
            (Some(jid), Some(sub)) => Some(RosterContactView { jid, name: c.attr("name"@), subscription: sub }),
            _ => None,
        }
    } else {
        None
    }
}

/// The contacts of a roster query, when every child is a well-formed item.
pub open spec fn roster_items(cs: Seq<ElementView>) -> Option<Seq<RosterContactView>>
    decreases cs.len(),
{
    if cs.len() == 0 {
        Some(Seq::empty())
    } else {
        match (roster_items(cs.drop_last()), roster_contact(cs.last())) {
            (Some(a), Some(c)) => Some(a.push(c)),
            _ => None,
        }
    }
}

/// The roster a result carries: the single `<query/>` payload of an
/// `<iq type='result'/>` with an id.
pub open spec fn roster_of(e: ElementView) -> Option<Seq<RosterContactView>> {
    if e.name == "iq"@ && is_result(e) && e.attr("id"@) is Some && e.children.len() == 1 && e.children[0].name == "query"@
        && e.children[0].ns == NS_ROSTER@ {
        roster_items(e.children[0].children)
    } else {
        None
    }
}

/// The `(node, name)` of each item that names a command node, in order.
pub open spec fn adhoc_commands(items: Seq<DiscoItemView>) -> Seq<(Seq<char>, Seq<char>)>
    decreases items.len(),
{
    if items.len() == 0 {
        Seq::empty()
    } else {
        let rest = adhoc_commands(items.drop_last());
        match items.last().node {
            Some(node) => rest.push(
                (
                    node,
                    match items.last().name {
                        Some(n) => n,
                        None => Seq::empty(),
                    },
                ),
            ),
            None => rest,
        }
    }
}

pub open spec fn any_node(items: Seq<DiscoItemView>) -> bool {
    exists|i: int| 0 <= i < items.len() && (#[trigger] items[i]).node is Some
}

// ---------------------------------------------------------------------------
// Which answer it is
// ---------------------------------------------------------------------------

pub open spec fn iq_id(e: ElementView) -> Seq<char> {
    e.attr("id"@)->0
}

pub open spec fn slot_hit(e: ElementView, fu: FileUploadManager) -> bool {
    &&& e.name == "iq"@
    &&& is_result(e)
    &&& e.attr("id"@) is Some
    &&& fu.pending().contains_key(iq_id(e))
    &&& slot_of(e) is Some
}

pub open spec fn slot_error_probe(e: ElementView) -> bool {
    e.name == "iq"@ && e.attr("type"@) == Some("error"@) && e.attr("id"@) is Some
}

pub open spec fn vcard_get_hit(e: ElementView, vc: VCardEditManager) -> bool {
    e.attr("id"@) is Some && vc.pending_get().contains(iq_id(e)) && has(e, "vCard"@, NS_VCARD@)
}

pub open spec fn avatar_vcard_hit(e: ElementView, av: AvatarManager) -> bool {
    &&& e.attr("id"@) is Some
    &&& av.pending_vcards().contains_key(iq_id(e))
    &&& vcard_photo(e) is Some
    &&& photo_bytes(vcard_photo(e)->0) is Some
}

pub open spec fn result_with_id(e: ElementView) -> bool {
    is_result(e) && e.attr("id"@) is Some
}

pub open spec fn account_hit(e: ElementView, acct: AccountManager) -> bool {
    &&& (e.attr("type"@) == Some("result"@) || e.attr("type"@) == Some("error"@))
    &&& e.attr("id"@) is Some
    &&& (acct.pending_change().contains(iq_id(e)) || acct.pending_delete().contains(iq_id(e)))
}

pub open spec fn omemo_devices_hit(e: ElementView, om: Option<OmemoManager>) -> bool {
    result_with_id(e) && (om matches Some(m) && m.device_list_fetches().contains_key(iq_id(e)))
}

pub open spec fn omemo_bundle_hit(e: ElementView, om: Option<OmemoManager>) -> bool {
    result_with_id(e) && (om matches Some(m) && m.bundle_fetches().contains_key(iq_id(e)))
}

/// The branch that handles `e`, numbered in the order they are tried:
/// 1 archive end, 2 upload slot, 3 upload error, 4 avatar data, 5 own vCard,
/// 6 own vCard saved, 7 contact vCard, 8 ad-hoc command, 9 disco#info,
/// 10 disco#items, 11 block list, 12 archive preferences, 13 room form,
/// 14 room configured, 15 OMEMO device list, 16 OMEMO bundle, 17 binary
/// data, 18 bookmarks, 19 ignore list, 20 conversation list, 21 block push,
/// 22 unblock push, 23 account request, 24 anything else (a roster or nothing).
pub open spec fn iq_route(
    e: ElementView,
    fu: FileUploadManager,
    vc: VCardEditManager,
    av: AvatarManager,
    ad: AdhocManager,
    di: DiscoManager,
    om: Option<OmemoManager>,
    acct: AccountManager,
) -> int {
    if is_result(e) && has(e, "fin"@, NS_MAM@) {
        1
    } else if slot_hit(e, fu) {
        2
    } else if slot_error_probe(e) && fu.pending().contains_key(iq_id(e)) {
        3
    } else if is_result(e) && has_pubsub_items(e, NS_AVATAR_DATA@) {
        4
    } else if vcard_get_hit(e, vc) {
        5
    } else if e.attr("id"@) is Some && vc.pending_set().contains(iq_id(e)) {
        6
    } else if avatar_vcard_hit(e, av) {
        7
    } else if result_with_id(e) && ad.pending().contains_key(iq_id(e)) && has(e, "command"@, NS_ADHOC@) {
        8
    } else if result_with_id(e) && di.pending_info().contains_key(iq_id(e)) && has(e, "query"@, NS_DISCO_INFO@) {
        9
    } else if result_with_id(e) && di.pending_items().contains_key(iq_id(e)) && has(e, "query"@, NS_DISCO_ITEMS@) {
        10
    } else if is_result(e) && has(e, "blocklist"@, NS_BLOCKING@) {
        11
    } else if is_result(e) && prefs_default(e) is Some {
        12
    } else if is_result(e) && has(e, "query"@, NS_MUC_OWNER@) {
        13
    } else if result_with_id(e) && seq_starts_with(iq_id(e), CONFIG_SUBMIT_PREFIX@) {
        14
    } else if omemo_devices_hit(e, om) {
        15
    } else if omemo_bundle_hit(e, om) {
        16
    } else if is_result(e) && parsed_bob(e) is Some {
        17
    } else if is_result(e) && has(e, "query"@, NS_PRIVATE@) {
        18
    } else if is_result(e) && ignore_room(e) is Some {
        19
    } else if is_result(e) && has_pubsub_items(e, CONVERSATIONS_NODE@) {
        20
    } else if e.attr("type"@) == Some("set"@) && first_child_is(e, "block"@) {
        21
    } else if e.attr("type"@) == Some("set"@) && first_child_is(e, "unblock"@) {
        22
    } else if account_hit(e, acct) {
        23
    } else {
        24
    }
}

// ---------------------------------------------------------------------------
// What each branch reports
// ---------------------------------------------------------------------------

/// The query an archive `<fin/>` closes: the one it names, or else the only
/// pending one.
pub open spec fn fin_qid(e: ElementView, mam: MamManager) -> Option<Seq<char>> {
    if e.name == "iq"@ && has(e, "fin"@, NS_MAM@) {
        match e.child("fin"@, NS_MAM@)->0.attr("queryid"@) {
            Some(q) => Some(q),
            None => if mam.pending().len() == 1 {
                Some(choose|k: Seq<char>| mam.pending().contains_key(k))
            } else {
                None
            },
        }
    } else {
        None
    }
}

/// The conversation a finished query belongs to.
pub open spec fn catchup_conv(c: CatchupManager, q: Seq<char>) -> Seq<char> {
    if c.queries().contains_key(q) && c.states().contains_key(c.queries()[q]) && c.states()[c.queries()[q]] is Fetching {
        c.queries()[q]
    } else {
        SERVER_CONVERSATION@
    }
}

/// How many archived messages a finished query collected.
pub open spec fn fin_count(mam: MamManager, q: Seq<char>) -> nat {
    if mam.results().contains_key(q) {
        mam.results()[q].messages.len()
    } else {
        0
    }
}

pub open spec fn from_of(e: ElementView) -> Seq<char> {
    attr_or_empty(e, "from"@)
}

pub open spec fn events_of(
    route: int,
    e: ElementView,
    mam: MamManager,
    catchup: CatchupManager,
    av: AvatarManager,
    di: DiscoManager,
    acct: AccountManager,
    conv: ConversationSyncManager,
) -> Seq<XmppEventView> {
    if route == 1 {
        match fin_qid(e, mam) {
            Some(q) => seq![XmppEventView::CatchupFinished { conversation_jid: catchup_conv(catchup, q), fetched: fin_count(mam, q) as usize }],
            None => Seq::empty(),
        }
    } else if route == 2 {
        let s = slot_of(e)->0;
        seq![XmppEventView::UploadSlotReceived { put_url: s.put_url, get_url: s.get_url, headers: s.put_headers }]
    } else if route == 3 {
        seq![XmppEventView::UploadSlotError { iq_id: iq_id(e) }]
    } else if route == 4 {
        match data_result(e) {
            Some((_, text)) => match decoded_text(text) {
                Some(data) => if data.len() > 0 {
                    seq![XmppEventView::AvatarUpdated { jid: from_of(e), data }]
                } else {
                    Seq::empty()
                },
                None => Seq::empty(),
            },
            None => Seq::empty(),
        }
    } else if route == 5 {
        seq![XmppEventView::OwnVCardReceived(fields_of(e.child("vCard"@, NS_VCARD@)->0))]
    } else if route == 6 {
        seq![XmppEventView::OwnVCardSaved]
    } else if route == 7 {
        let bytes = photo_bytes(vcard_photo(e)->0)->0;
        if bytes.len() > 0 {
            seq![XmppEventView::AvatarReceived { jid: av.pending_vcards()[iq_id(e)], png_bytes: bytes }]
        } else {
            Seq::empty()
        }
    } else if route == 8 {
        seq![XmppEventView::AdhocCommandResult(response_of(e.child("command"@, NS_ADHOC@)->0))]
    } else if route == 10 {
        let items = items_of(e.child("query"@, NS_DISCO_ITEMS@)->0.children);
        let service = di.pending_items()[iq_id(e)];
        if any_node(items) {
            seq![XmppEventView::AdhocCommandsDiscovered { from_jid: service, commands: adhoc_commands(items) }]
        } else {
            seq![XmppEventView::RoomListReceived(items)]
        }
    } else if route == 12 {
        seq![XmppEventView::MamPrefsReceived { default_mode: prefs_default(e)->0 }]
    } else if route == 13 {
        match parsed_config(e.child("query"@, NS_MUC_OWNER@)->0) {
            Some(c) => seq![XmppEventView::RoomConfigFormReceived { room_jid: from_of(e), config: c }],
            None => Seq::empty(),
        }
    } else if route == 14 {
        seq![XmppEventView::RoomConfigured { room_jid: from_of(e) }]
    } else if route == 17 {
        seq![XmppEventView::BobReceived(parsed_bob(e)->0)]
    } else if route == 18 {
        seq![XmppEventView::BookmarksReceived(parsed_bookmarks(e))]
    } else if route == 20 {
        seq![
            XmppEventView::ConversationsReceived(
                match find_conversations(e) {
                    Some(c) => conversations_of(c.children),
                    None => Seq::empty(),
                },
            ),
        ]
    } else if route == 23 {
        let ok = e.attr("type"@) == Some("result"@);
        if acct.pending_change().contains(iq_id(e)) {
            seq![XmppEventView::PasswordChanged { success: ok }]
        } else {
            seq![XmppEventView::AccountDeleted { success: ok }]
        }
    } else if route == 24 {
        match roster_of(e) {
            Some(cs) => seq![XmppEventView::RosterReceived(cs)],
            None => Seq::empty(),
        }
    } else {
        Seq::empty()
    }
}

pub open spec fn follow_up_of(route: int, e: ElementView, om: Option<OmemoManager>) -> Option<OmemoFollowUpView> {
    if route == 15 {
        Some(
            OmemoFollowUpView::DeviceList {
                peer_jid: om->0.device_list_fetches()[iq_id(e)],
                devices: match find_desc(e, "devices"@, NS_OMEMO_V2@) {
                    Some(d) => device_ids(d.children),
                    None => Seq::empty(),
                },
            },
        )
    } else if route == 16 {
        let (peer, device) = om->0.bundle_fetches()[iq_id(e)];
        Some(OmemoFollowUpView::Bundle { peer_jid: peer, device_id: device, bundle: parsed_bundle(e) })
    } else {
        None
    }
}

// ---------------------------------------------------------------------------
// Reading the stanza, executably
// ---------------------------------------------------------------------------

fn has_items_node(c: &Element, node: &str) -> (b: bool)
    ensures
        b == (first_such(c@.children, attr_either("items"@, "node"@, node@, node@)) is Some),
{
    c.find_child_attr_either("items", "node", node, node).is_some()
}

fn has_pubsub_items_exec(el: &Element, node: &str) -> (b: bool)
    ensures
        b == has_pubsub_items(el@, node@),
{
    let ghost p = pubsub_with(node@);
    let ghost cs = el@.children;
    proof {
        lemma_children_view(*el);
    }
    let mut i: usize = 0;
    while i < el.children.len()
        invariant
            i <= el.children.len(),
            cs == el@.children,
            p == pubsub_with(node@),
            cs.len() == el.children@.len(),
            forall|j: int| 0 <= j < el.children@.len() ==> #[trigger] cs[j] == el.children@[j]@,
            forall|j: int| 0 <= j < i ==> !p(#[trigger] cs[j]),
        decreases el.children.len() - i,
    {
        let c = &el.children[i];
        let b = str_eq(c.name(), "pubsub") && str_eq(c.ns(), NS_PUBSUB) && has_items_node(c, node);
        assert(c@ == cs[i as int]);
        assert(b == p(cs[i as int]));
        if b {
            proof {
                lemma_first_such_skip(cs, p, i as int);
                assert(cs.skip(i as int)[0] == cs[i as int]);
            }
            return true;
        }
        i += 1;
    }
    proof {
        lemma_first_such_skip(cs, p, i as int);
        assert(cs.skip(i as int).len() == 0);
    }
    false
}

fn is_ignore_items(i: &Element) -> (b: bool)
    ensures
        b == ignore_items()(i@),
{
    if !str_eq(i.name(), "items") {
        return false;
    }
    match i.attr("node") {
        Some(n) => vec_starts_with(&chars_of(n), &chars_of(IGNORE_NODE_PREFIX)),
        None => false,
    }
}

fn find_ignore_items(c: &Element) -> (r: Option<&Element>)
    ensures
        r matches Some(x) ==> first_such(c@.children, ignore_items()) == Some(x@) && ignore_items()(x@),
        r is None ==> first_such(c@.children, ignore_items()) is None,
{
    let ghost p = ignore_items();
    let ghost cs = c@.children;
    proof {
        lemma_children_view(*c);
    }
    let mut i: usize = 0;
    while i < c.children.len()
        invariant
            i <= c.children.len(),
            cs == c@.children,
            p == ignore_items(),
            cs.len() == c.children@.len(),
            forall|j: int| 0 <= j < c.children@.len() ==> #[trigger] cs[j] == c.children@[j]@,
            forall|j: int| 0 <= j < i ==> !p(#[trigger] cs[j]),
        decreases c.children.len() - i,
    {
        let x = &c.children[i];
        let b = is_ignore_items(x);
        assert(x@ == cs[i as int]);
        if b {
            proof {
                lemma_first_such_skip(cs, p, i as int);
                assert(cs.skip(i as int)[0] == cs[i as int]);
            }
            return Some(x);
        }
        i += 1;
    }
    proof {
        lemma_first_such_skip(cs, p, i as int);
        assert(cs.skip(i as int).len() == 0);
    }
    None
}

/// The room of the ignore list that the result carries.
pub fn ignore_room_of(el: &Element) -> (r: Option<String>)
    ensures
        match r {
            Some(room) => ignore_room(el@) == Some(room@),
            None => ignore_room(el@) is None,
        },
{
    let ghost p = pubsub_with_ignore();
    let ghost cs = el@.children;
    proof {
        lemma_children_view(*el);
    }
    let mut i: usize = 0;
    while i < el.children.len()
        invariant
            i <= el.children.len(),
            cs == el@.children,
            p == pubsub_with_ignore(),
            cs.len() == el.children@.len(),
            forall|j: int| 0 <= j < el.children@.len() ==> #[trigger] cs[j] == el.children@[j]@,
            forall|j: int| 0 <= j < i ==> !p(#[trigger] cs[j]),
        decreases el.children.len() - i,
    {
        let c = &el.children[i];
        assert(c@ == cs[i as int]);
        if str_eq(c.name(), "pubsub") && str_eq(c.ns(), NS_PUBSUB) {
            if let Some(items) = find_ignore_items(c) {
                proof {
                    lemma_first_such_skip(cs, p, i as int);
                    assert(cs.skip(i as int)[0] == cs[i as int]);
                }
                let node = match items.attr("node") {
                    Some(n) => chars_of(n),
                    None => {
                        assert(false);
                        return None;
                    },
                };
                let pre = chars_of(IGNORE_NODE_PREFIX);
                let plen = pre.len();
                let room = string_of_range(&node, plen, node.len());
                assert(node@.subrange(plen as int, node@.len() as int) =~= node@.skip(plen as int));
                return Some(room);
            }
        }
        i += 1;
    }
    proof {
        lemma_first_such_skip(cs, p, i as int);
        assert(cs.skip(i as int).len() == 0);
    }
    None
}

fn prefs_default_of(el: &Element) -> (r: Option<&str>)
    ensures
        match r {
            Some(d) => prefs_default(el@) == Some(d@),
            None => prefs_default(el@) is None,
        },
{
    let ghost p = prefs_with_default();
    let ghost cs = el@.children;
    proof {
        lemma_children_view(*el);
    }
    let mut i: usize = 0;
    while i < el.children.len()
        invariant
            i <= el.children.len(),
            cs == el@.children,
            p == prefs_with_default(),
            cs.len() == el.children@.len(),
            forall|j: int| 0 <= j < el.children@.len() ==> #[trigger] cs[j] == el.children@[j]@,
            forall|j: int| 0 <= j < i ==> !p(#[trigger] cs[j]),
        decreases el.children.len() - i,
    {
        let c = &el.children[i];
        assert(c@ == cs[i as int]);
        if str_eq(c.name(), "prefs") && str_eq(c.ns(), NS_MAM) {
            if let Some(d) = c.attr("default") {
                proof {
                    lemma_first_such_skip(cs, p, i as int);
                    assert(cs.skip(i as int)[0] == cs[i as int]);
                }
                return Some(d);
            }
        }
        i += 1;
    }
    proof {
        lemma_first_such_skip(cs, p, i as int);
        assert(cs.skip(i as int).len() == 0);
    }
    None
}

fn first_child_named(el: &Element, n: &str) -> (b: bool)
    ensures
        b == first_child_is(el@, n@),
{
    proof {
        lemma_children_view(*el);
    }
    el.children.len() > 0 && str_eq(el.children[0].name(), n)
}

fn subscription_of(s: Option<&str>) -> (r: Option<String>)
    ensures
        match r {
            Some(x) => subscription_name(crate::util::xml::opt_view(s)) == Some(x@),
            None => subscription_name(crate::util::xml::opt_view(s)) is None,
        },
{
    match s {
        None => Some("None".to_owned()),
        Some(v) => if str_eq(v, "none") {
            Some("None".to_owned())
        } else if str_eq(v, "from") {
            Some("From".to_owned())
        } else if str_eq(v, "to") {
            Some("To".to_owned())
        } else if str_eq(v, "both") {
            Some("Both".to_owned())
        } else if str_eq(v, "remove") {
            Some("Remove".to_owned())
        } else {
            None
        },
    }
}

fn contact_of(c: &Element) -> (r: Option<RosterContact>)
    ensures
        match r {
            Some(x) => roster_contact(c@) == Some(x@),
            None => roster_contact(c@) is None,
        },
{
    if !(str_eq(c.name(), "item") && str_eq(c.ns(), NS_ROSTER)) {
        return None;
    }
    let jid = match c.attr("jid") {
        Some(j) => j.to_owned(),
        None => return None,
    };
    let sub = match subscription_of(c.attr("subscription")) {
        Some(s) => s,
        None => return None,
    };
    let name = match c.attr("name") {
        Some(n) => Some(n.to_owned()),
        None => None,
    };
    Some(RosterContact { jid, name, subscription: sub })
}

/// The roster a result carries.
pub fn roster_of_exec(el: &Element) -> (r: Option<Vec<RosterContact>>)
    ensures
        match r {
            Some(v) => roster_of(el@) == Some(views(v@)),
            None => roster_of(el@) is None,
        },
{
    proof {
        lemma_children_view(*el);
    }
    if !(str_eq(el.name(), "iq") && el.attr_is("type", "result") && el.attr("id").is_some() && el.children.len() == 1) {
        return None;
    }
    let q = &el.children[0];
    if !(str_eq(q.name(), "query") && str_eq(q.ns(), NS_ROSTER)) {
        return None;
    }
    let ghost csv = q@.children;
    proof {
        lemma_children_view(*q);
        assert(el@.children[0] == q@);
    }
    assert(roster_of(el@) == roster_items(csv));
    let mut out: Vec<RosterContact> = Vec::new();
    let mut i: usize = 0;
    while i < q.children.len()
        invariant
            i <= q.children.len(),
            csv == q@.children,
            csv.len() == q.children@.len(),
            forall|j: int| 0 <= j < q.children@.len() ==> #[trigger] csv[j] == q.children@[j]@,
            roster_items(csv.take(i as int)) == Some(views(out@)),
            roster_of(el@) == roster_items(csv),
        decreases q.children.len() - i,
    {
        let c = &q.children[i];
        proof {
            assert(csv.take(i + 1).drop_last() =~= csv.take(i as int));
            assert(csv.take(i + 1).last() == c@);
        }
        match contact_of(c) {
            Some(x) => {
                let ghost before = out@;
                out.push(x);
                assert(views(out@) =~= views(before).push(x@));
            },
            None => {
                proof {
                    lemma_roster_items_fail(csv, i as int);
                }
                return None;
            },
        }
        i += 1;
    }
    assert(csv.take(i as int) =~= csv);
    Some(out)
}

/// Once an item fails, the whole roster does.
proof fn lemma_roster_items_fail(cs: Seq<ElementView>, i: int)
    requires
        0 <= i < cs.len(),
        roster_contact(cs[i]) is None,
    ensures
        roster_items(cs) is None,
    decreases cs.len(),
{
    if i == cs.len() - 1 {
        assert(cs.last() == cs[i]);
    } else {
        lemma_roster_items_fail(cs.drop_last(), i);
    }
}

fn commands_of(items: &Vec<crate::xmpp::modules::disco::DiscoItem>) -> (r: Vec<(String, String)>)
    ensures
        crate::xmpp::string_pairs(r@) == adhoc_commands(views(items@)),
{
    let ghost iv = views(items@);
    let mut out: Vec<(String, String)> = Vec::new();
    let mut i: usize = 0;
    while i < items.len()
        invariant
            i <= items.len(),
            iv == views(items@),
            crate::xmpp::string_pairs(out@) == adhoc_commands(iv.take(i as int)),
        decreases items.len() - i,
    {
        proof {
            assert(iv.take(i + 1).drop_last() =~= iv.take(i as int));
            assert(iv.take(i + 1).last() == items@[i as int]@);
        }
        let it = &items[i];
        match &it.node {
            Some(node) => {
                let name = match &it.name {
                    Some(n) => n.clone(),
                    None => String::new(),
                };
                let ghost before = out@;
                out.push((node.clone(), name));
                assert(crate::xmpp::string_pairs(out@) =~= crate::xmpp::string_pairs(before).push((node@, name@)));
            },
            None => {},
        }
        i += 1;
    }
    assert(iv.take(i as int) =~= iv);
    out
}

fn any_node_exec(items: &Vec<crate::xmpp::modules::disco::DiscoItem>) -> (b: bool)
    ensures
        b == any_node(views(items@)),
{
    let mut i: usize = 0;
    while i < items.len()
        invariant
            i <= items.len(),
            forall|j: int| 0 <= j < i ==> (#[trigger] views(items@)[j]).node is None,
        decreases items.len() - i,
    {
        if items[i].node.is_some() {
            assert(views(items@)[i as int].node is Some);
            return true;
        }
        i += 1;
    }
    false
}

// ---------------------------------------------------------------------------
// What each branch changes
// ---------------------------------------------------------------------------

pub open spec fn route_of(e: ElementView, s: SessionState) -> int {
    iq_route(e, s.file_upload, s.vcard_edit, s.avatar, s.adhoc, s.disco, s.omemo, s.account)
}

/// The managers an `<iq/>` reads or changes, before (`s`) and after (`t`):
/// each one that the branches up to `route` consulted is changed as that
/// manager's own operation says, and the others stay as they were.
pub open spec fn iq_next(route: int, e: ElementView, s: SessionState, t: SessionState) -> bool {
    let id = iq_id(e);
    let from = from_of(e);
    &&& t.sm == s.sm
    &&& t.presence == s.presence
    &&& t.muc == s.muc
    &&& t.muc_config == s.muc_config
    &&& t.push == s.push
    &&& t.muc_admin == s.muc_admin
    &&& t.muc_voice == s.muc_voice
    &&& t.conv_sync == s.conv_sync
    // archive end
    &&& if route == 1 && fin_qid(e, s.mam) is Some {
        let q = fin_qid(e, s.mam)->0;
        &&& t.mam.pending() == s.mam.pending().remove(q)
        &&& t.mam.results() == s.mam.results().remove(q)
        &&& t.catchup.queries() == s.catchup.queries().remove(q)
        &&& t.catchup.states() == (if s.catchup.queries().contains_key(q) {
            s.catchup.states().insert(s.catchup.queries()[q], CatchupStateView::Complete)
        } else {
            s.catchup.states()
        })
        &&& t.sync.queries() == (if s.sync.queries().contains_key(q) {
            s.sync.queries().remove(q)
        } else {
            s.sync.queries()
        })
        &&& t.sync.pending() == (if s.sync.queries().contains_key(q) {
            s.sync.pending().remove(s.sync.queries()[q])
        } else {
            s.sync.pending()
        })
    } else {
        &&& t.mam.pending() == s.mam.pending()
        &&& t.mam.results() == s.mam.results()
        &&& t.catchup.queries() == s.catchup.queries()
        &&& t.catchup.states() == s.catchup.states()
        &&& t.sync.queries() == s.sync.queries()
        &&& t.sync.pending() == s.sync.pending()
    }
    &&& t.sync.received() == s.sync.received()
    &&& t.sync.fetched() == s.sync.fetched()
    // uploads
    &&& t.file_upload.pending() == (if route == 2 || (route >= 3 && slot_error_probe(e)) {
        s.file_upload.pending().remove(id)
    } else {
        s.file_upload.pending()
    })
    // avatars
    &&& t.avatar.cache() == (if route == 4 && (data_result(e) matches Some((_, text)) && decoded_text(text) is Some) {
        let (sha1, text) = data_result(e)->0;
        s.avatar.cache().insert(
            from,
            AvatarInfoView {
                jid: from,
                sha1,
                mime_type: if s.avatar.cache().contains_key(from) {
                    s.avatar.cache()[from].mime_type
                } else {
                    DEFAULT_MIME@
                },
                data: decoded_text(text)->0,
            },
        )
    } else if route == 7 {
        let photo = vcard_photo(e)->0;
        let jid = s.avatar.pending_vcards()[id];
        s.avatar.cache().insert(
            jid,
            AvatarInfoView { jid, sha1: Seq::empty(), mime_type: photo_mime(photo), data: photo_bytes(photo)->0 },
        )
    } else {
        s.avatar.cache()
    })
    &&& t.avatar.pending_vcards() == (if route >= 7 && e.attr("id"@) is Some {
        s.avatar.pending_vcards().remove(id)
    } else {
        s.avatar.pending_vcards()
    })
    // own vCard
    &&& t.vcard_edit.pending_get() == (if route >= 5 && e.attr("id"@) is Some {
        s.vcard_edit.pending_get().remove(id)
    } else {
        s.vcard_edit.pending_get()
    })
    &&& t.vcard_edit.pending_set() == (if route >= 6 && e.attr("id"@) is Some {
        s.vcard_edit.pending_set().remove(id)
    } else {
        s.vcard_edit.pending_set()
    })
    // ad-hoc commands
    &&& t.adhoc.pending() == (if route >= 8 && result_with_id(e) {
        s.adhoc.pending().remove(id)
    } else {
        s.adhoc.pending()
    })
    // service discovery
    &&& t.disco.pending_info() == (if route >= 9 && result_with_id(e) {
        s.disco.pending_info().remove(id)
    } else {
        s.disco.pending_info()
    })
    &&& t.disco.cache() == (if route == 9 {
        s.disco.cache().insert(s.disco.pending_info()[id], info_of(e.child("query"@, NS_DISCO_INFO@)->0.children))
    } else {
        s.disco.cache()
    })
    &&& t.disco.pending_items() == (if route >= 10 && result_with_id(e) {
        s.disco.pending_items().remove(id)
    } else {
        s.disco.pending_items()
    })
    &&& t.disco.own_caps() == s.disco.own_caps()
    // blocking
    &&& t.blocking.blocked() == (if route == 11 {
        item_jids(e.child("blocklist"@, NS_BLOCKING@)->0.children)
    } else if route == 21 && has(e, "block"@, NS_BLOCKING@) {
        s.blocking.blocked().union(item_jids(e.child("block"@, NS_BLOCKING@)->0.children))
    } else if route == 22 && has(e, "unblock"@, NS_BLOCKING@) {
        let gone = item_jids(e.child("unblock"@, NS_BLOCKING@)->0.children);
        if gone.is_empty() {
            Set::<Seq<char>>::empty()
        } else {
            s.blocking.blocked().difference(gone)
        }
    } else {
        s.blocking.blocked()
    })
    // bookmarks
    &&& t.bookmarks.bookmarks() == (if route == 18 {
        parsed_bookmarks(e)
    } else {
        s.bookmarks.bookmarks()
    })
    // ignore lists
    &&& t.ignore.lists() == (if route == 19 && find_ignored(e) is Some {
        s.ignore.lists().insert(ignore_room(e)->0, user_jids(find_ignored(e)->0.children))
    } else {
        s.ignore.lists()
    })
    // OMEMO fetches
    &&& (s.omemo is Some <==> t.omemo is Some)
    &&& (s.omemo matches Some(m) ==> {
        let n = t.omemo->0;
        &&& n.device_list_fetches() == (if route >= 15 && result_with_id(e) {
            m.device_list_fetches().remove(id)
        } else {
            m.device_list_fetches()
        })
        &&& n.bundle_fetches() == (if route >= 16 && result_with_id(e) {
            m.bundle_fetches().remove(id)
        } else {
            m.bundle_fetches()
        })
        &&& n.device_id() == m.device_id()
    })
    // account requests
    &&& t.account.pending_change() == (if route == 23 && s.account.pending_change().contains(id) {
        s.account.pending_change().remove(id)
    } else {
        s.account.pending_change()
    })
    &&& t.account.pending_delete() == (if route == 23 && !s.account.pending_change().contains(id) {
        s.account.pending_delete().remove(id)
    } else {
        s.account.pending_delete()
    })
}

/// The ignore list reported for room `room`: the room's users after the
/// result was read, in sorted order.
pub open spec fn ignore_event_ok(e: ElementView, events: Seq<XmppEvent>, t: IgnoreManager) -> bool {
    &&& events.len() == 1
    &&& match events[0]@ {
        XmppEventView::IgnoreListReceived { room_jid, ignored } => {
            &&& room_jid == ignore_room(e)->0
            &&& strictly_sorted(ignored)
            &&& ignored.to_set() == t.ignored_in(room_jid)
        },
        _ => false,
    }
}

/// A finite set of one element holds nothing else.
proof fn lemma_single_key<K, V>(m: Map<K, V>, a: K, b: K)
    requires
        m.dom().finite(),
        m.len() == 1,
        m.contains_key(a),
        m.contains_key(b),
    ensures
        a == b,
{
    let d = m.dom();
    vstd::set::axiom_set_remove_len(d, a);
    vstd::set_lib::lemma_set_empty_equivalency_len(d.remove(a));
    if a != b {
        assert(d.remove(a).contains(b));
    }
}

fn no_events() -> (r: IqOutcome)
    ensures
        r.events@.len() == 0,
        r.omemo is None,
{
    IqOutcome { events: Vec::new(), omemo: None }
}

fn events_only(events: Vec<XmppEvent>) -> (r: IqOutcome)
    ensures
        r.events == events,
        r.omemo is None,
{
    IqOutcome { events, omemo: None }
}

/// What an `<iq/>` stanza gives: the first branch that applies (see
/// [`iq_route`]) reports its events and leaves its OMEMO work, and every
/// manager consulted on the way changes as its operation says.
#[verifier::rlimit(100)]
#[verifier::spinoff_prover]
pub fn handle_iq(el: &Element, st: &mut SessionState) -> (r: IqOutcome)
    ensures
        iq_next(route_of(el@, *old(st)), el@, *old(st), *final(st)),
        route_of(el@, *old(st)) != 19 ==> views(r.events@) == events_of(
            route_of(el@, *old(st)),
            el@,
            old(st).mam,
            old(st).catchup,
            old(st).avatar,
            old(st).disco,
            old(st).account,
            old(st).conv_sync,
        ),
        route_of(el@, *old(st)) == 19 ==> ignore_event_ok(el@, r.events@, final(st).ignore),
        opt_follow_up(r.omemo) == follow_up_of(route_of(el@, *old(st)), el@, old(st).omemo),
{
    let ghost e = el@;
    let ghost s0 = *st;
    let is_res = el.attr_is("type", "result");
    // archive end
    if is_res && el.get_child("fin", NS_MAM).is_some() {
        st.mam.pending_facts();
        let events = match st.mam.on_fin_iq(el) {
            Some((query_id, result)) => {
                proof {
                    let fin = e.child("fin"@, NS_MAM@)->0;
                    if fin.attr("queryid"@) is None {
                        let k = choose|k: Seq<char>| s0.mam.pending().contains_key(k);
                        lemma_single_key(s0.mam.pending(), query_id@, k);
                    }
                    assert(fin_qid(e, s0.mam) == Some(query_id@));
                }
                let fetched = result.messages.len();
                let conv = match st.catchup.on_result(query_id.as_str(), SERVER_CONVERSATION) {
                    Some(j) => j.to_owned(),
                    None => SERVER_CONVERSATION.to_owned(),
                };
                st.catchup.on_fin(query_id.as_str());
                let _ = st.sync.on_fin(query_id.as_str());
                one(XmppEvent::CatchupFinished { conversation_jid: conv, fetched })
            },
            None => {
                assert(fin_qid(e, s0.mam) is None);
                Vec::new()
            },
        };
        return events_only(events);
    }
    // upload slot
    if let Some(slot) = st.file_upload.on_slot_result(el) {
        return events_only(one(XmppEvent::UploadSlotReceived { put_url: slot.put_url, get_url: slot.get_url, headers: slot.put_headers }));
    }
    if let Some(iq_id) = st.file_upload.on_slot_error(el) {
        return events_only(one(XmppEvent::UploadSlotError { iq_id }));
    }
    let from = match el.attr("from") {
        Some(f) => f.to_owned(),
        None => String::new(),
    };
    // avatar data
    if is_res && has_pubsub_items_exec(el, NS_AVATAR_DATA) {
        let events = match st.avatar.on_avatar_data_result(from.as_str(), el) {
            Some(info) => if info.data.len() > 0 {
                one(XmppEvent::AvatarUpdated { jid: info.jid, data: info.data })
            } else {
                Vec::new()
            },
            None => Vec::new(),
        };
        return events_only(events);
    }
    // own vCard
    if let Some(fields) = st.vcard_edit.on_get_result(el) {
        return events_only(one(XmppEvent::OwnVCardReceived(fields)));
    }
    if st.vcard_edit.on_set_result(el) {
        return events_only(one(XmppEvent::OwnVCardSaved));
    }
    // contact vCard
    if let Some(info) = st.avatar.on_vcard_result(el) {
        let events = if info.data.len() > 0 {
            one(XmppEvent::AvatarReceived { jid: info.jid, png_bytes: info.data })
        } else {
            Vec::new()
        };
        return events_only(events);
    }
    // ad-hoc command
    if let Some(resp) = st.adhoc.on_result(el) {
        return events_only(one(XmppEvent::AdhocCommandResult(resp)));
    }
    // service discovery
    if st.disco.on_info_result(el).is_some() {
        return no_events();
    }
    if let Some((service, items)) = st.disco.on_items_result(el) {
        proof {
            assert(views(items@) =~= items@.map_values(|i: crate::xmpp::modules::disco::DiscoItem| i@));
        }
        let events = if any_node_exec(&items) {
            let commands = commands_of(&items);
            one(XmppEvent::AdhocCommandsDiscovered { from_jid: service, commands })
        } else {
            one(XmppEvent::RoomListReceived(items))
        };
        return events_only(events);
    }
    if is_res && el.get_child("blocklist", NS_BLOCKING).is_some() {
        st.blocking.on_blocklist_result(el);
        return no_events();
    }
    if is_res {
        if let Some(mode) = prefs_default_of(el) {
            return events_only(one(XmppEvent::MamPrefsReceived { default_mode: mode.to_owned() }));
        }
    }
    if is_res {
        if let Some(query) = el.get_child("query", NS_MUC_OWNER) {
            let events = match st.muc_config.parse_config_form(query) {
                Some(config) => one(XmppEvent::RoomConfigFormReceived { room_jid: from, config }),
                None => Vec::new(),
            };
            return events_only(events);
        }
    }
    if is_res {
        if let Some(id) = el.attr("id") {
            if vec_starts_with(&chars_of(id), &chars_of(CONFIG_SUBMIT_PREFIX)) {
                return events_only(one(XmppEvent::RoomConfigured { room_jid: from }));
            }
        }
    }
    // OMEMO answers
    if is_res {
        if let Some(id) = el.attr("id") {
            if let Some(mgr) = &mut st.omemo {
                if let Some(peer_jid) = mgr.take_device_list_fetch(id) {
                    let devices = DeviceManager::parse_device_list(el);
                    return IqOutcome { events: Vec::new(), omemo: Some(OmemoFollowUp::DeviceList { peer_jid, devices }) };
                }
                if let Some((peer_jid, device_id)) = mgr.take_bundle_fetch(id) {
                    let bundle = parse_bundle(el);
                    return IqOutcome { events: Vec::new(), omemo: Some(OmemoFollowUp::Bundle { peer_jid, device_id, bundle }) };
                }
            }
        }
    }
    if is_res {
        if let Some(bob) = parse_bob_data(el) {
            return events_only(one(XmppEvent::BobReceived(bob)));
        }
    }
    if is_res && el.get_child("query", NS_PRIVATE).is_some() {
        let bookmarks = BookmarkManager::parse_bookmarks_from_iq(el);
        let copy = copy_bookmarks(&bookmarks);
        st.bookmarks.set_bookmarks(copy);
        return events_only(one(XmppEvent::BookmarksReceived(bookmarks)));
    }
    if is_res {
        if let Some(room) = ignore_room_of(el) {
            st.ignore.parse_result(room.as_str(), el);
            let ignored = st.ignore.list(room.as_str());
            assert(views(ignored@) =~= strings_view(ignored@));
            let ghost rv = room@;
            let ghost iv = views(ignored@);
            let evs = one(XmppEvent::IgnoreListReceived { room_jid: room, ignored });
            assert(views(evs@).len() == 1);
            assert(evs@.len() == 1);
            assert(views(evs@)[0] == evs@[0]@);
            let out = events_only(evs);
            assert(out.events@[0]@ == XmppEventView::IgnoreListReceived { room_jid: rv, ignored: iv });
            assert(strictly_sorted(iv));
            assert(iv.to_set() == st.ignore.ignored_in(rv));
            return out;
        }
    }
    if is_res && has_pubsub_items_exec(el, CONVERSATIONS_NODE) {
        let conversations = st.conv_sync.parse_result(el);
        return events_only(one(XmppEvent::ConversationsReceived(conversations)));
    }
    if el.attr_is("type", "set") {
        if first_child_named(el, "block") {
            st.blocking.on_block_push(el);
            return no_events();
        }
        if first_child_named(el, "unblock") {
            st.blocking.on_unblock_push(el);
            return no_events();
        }
    }
    if is_res || el.attr_is("type", "error") {
        if let Some(result) = st.account.on_iq_result(el) {
            let ev = match result.kind {
                AccountIqKind::ChangePassword => XmppEvent::PasswordChanged { success: result.success },
                AccountIqKind::DeleteAccount => XmppEvent::AccountDeleted { success: result.success },
            };
            return events_only(one(ev));
        }
    }
    match roster_of_exec(el) {
        Some(contacts) => events_only(one(XmppEvent::RosterReceived(contacts))),
        None => no_events(),
    }
}

fn copy_bookmarks(v: &Vec<crate::xmpp::modules::bookmarks::Bookmark>) -> (r: Vec<crate::xmpp::modules::bookmarks::Bookmark>)
    ensures
        crate::xmpp::modules::bookmarks::bookmarks_view(r@) == crate::xmpp::modules::bookmarks::bookmarks_view(v@),
{
    let mut out: Vec<crate::xmpp::modules::bookmarks::Bookmark> = Vec::new();
    let mut i: usize = 0;
    while i < v.len()
        invariant
            i <= v.len(),
            out@.len() == i,
            forall|k: int| 0 <= k < i ==> #[trigger] out@[k]@ == v@[k]@,
        decreases v.len() - i,
    {
        let c = v[i].copy();
        out.push(c);
        i += 1;
    }
    assert(crate::xmpp::modules::bookmarks::bookmarks_view(out@) =~= crate::xmpp::modules::bookmarks::bookmarks_view(v@));
    out
}

/// `n` is `v` with its first letter, a lower-case ASCII letter, in upper case.
pub open spec fn capitalised(v: Seq<char>, n: Seq<char>) -> bool {
    &&& v.len() > 0
    &&& n.len() == v.len()
    &&& 'a' <= v[0] <= 'z'
    &&& n[0] as int == v[0] as int - 32
    &&& n.drop_first() == v.drop_first()
}

/// A roster item's subscription is reported under its own name with the
/// first letter capitalised; the five RFC 6121 states are the ones
/// reported, and an item without the attribute counts as `none`.
pub proof fn law_subscription_names(v: Seq<char>)
    ensures
        subscription_name(Some(v)) matches Some(n) ==> capitalised(v, n),
        (subscription_name(Some(v)) is Some) <==> (v == "none"@ || v == "from"@ || v == "to"@ || v == "both"@ || v
            == "remove"@),
        subscription_name(None) == subscription_name(Some("none"@)),
{
    reveal_strlit("none");
    reveal_strlit("from");
    reveal_strlit("to");
    reveal_strlit("both");
    reveal_strlit("remove");
    reveal_strlit("None");
    reveal_strlit("From");
    reveal_strlit("To");
    reveal_strlit("Both");
    reveal_strlit("Remove");
    if subscription_name(Some(v)) is Some {
        let n = subscription_name(Some(v))->0;
        assert(n.drop_first() =~= v.drop_first());
    }
}

} // verus!
