//! Routing each stanza from the server to the module that handles it.
use vstd::prelude::*;
use std::collections::VecDeque;
use crate::util::ext::is_uuid_v4_text;
use crate::util::strs::{bare_jid, bare_jid_of, chars_of, concat, parse_unsigned, parse_unsigned_chars, str_eq};
use crate::util::xml::{Element, ElementView, attr_either, first_such, lemma_children_view, lemma_first_such_skip};
use crate::xmpp::engine::{
    NS_FASTEN, NS_MODERATION, auth_error, bookmarks_get, carbon_of, carbons_enable, extract_carbon, is_auth_error, make_bookmarks_get_iq,
    make_carbons_enable, make_mam_prefs_get_iq, make_presence_with_caps, make_roster_get, mam_prefs_get, opt_str, presence_with_caps,
    roster_get,
};
use crate::xmpp::modules::blocking::{NS_BLOCKING, iq_with};
use crate::xmpp::modules::catchup::CatchupStateView;
use crate::xmpp::modules::mam::{MamFilter, MamQuery, RsmQuery, RsmSetView, query_iq};
use crate::xmpp::modules::presence_machine::PresenceModel;
use crate::xmpp::modules::push::{NS_PUSH, enable_payload, is_hex_text, set_iq};
use crate::xmpp::modules::stream_mgmt::fresh_stream;
use crate::xmpp::modules::avatar::{AvatarInfoView, NS_AVATAR_META, NS_AVATAR_META_DRAFT, NS_PUBSUB_EVENT, data_request, metadata_event};
use crate::xmpp::modules::mam::{MamMessageView, MamResultView, archived_message};
use crate::xmpp::modules::muc::{body_of, is_room_message, rooms_after_presence, split_slash};
use crate::xmpp::modules::muc_config::{MucConfigQueryView, owner_iq};
use crate::xmpp::modules::omemo::NS_OMEMO;
use crate::xmpp::modules::omemo::device::{DeviceManager, NS_OMEMO_V2, device_ids, device_list_event};
use crate::xmpp::modules::stream_mgmt::{NS_SM, StreamMgmtView, ack_element, after_ack};
use crate::xmpp::modules::{NS_MUC_OWNER, NS_MUC_USER};
use crate::xmpp::{IncomingMessage, IncomingMessageView, XmppEvent, XmppEventView, views};
use crate::util::xml::{elem, find_desc};
use crate::util::xml_text::{stanza_text, stanza_xml};
use super::SessionState;
use super::iq::{IqOutcome, OmemoFollowUp, OmemoFollowUpView, events_of, follow_up_of, handle_iq, has, ignore_event_ok, iq_next, route_of};
use super::message::{attr_or_empty, handle_message, message_outcome, one};

verus! {

broadcast use crate::util::xml::group_xml;

/// The location namespace (XEP-0080).
pub const NS_GEOLOC: &'static str = "http://jabber.org/protocol/geoloc";

/// Work a stanza leaves for the engine, outside the protocol state.
#[derive(Debug)]
pub enum FollowUp {
    /// An answer about OMEMO keys.
    Omemo(OmemoFollowUp),
    /// A contact's device list was pushed: sync the store and fetch the
    /// bundles of its devices without a session.
    OmemoDeviceListPush { peer_jid: String, devices: Vec<u32> },
    /// An OMEMO-encrypted message arrived: decrypt it.
    OmemoDecrypt,
    /// A contact published a location: read it.
    Geolocation,
    /// The session is up again: publish our device list and bundle anew.
    OmemoRepublish,
}

pub enum FollowUpView {
    Omemo(OmemoFollowUpView),
    OmemoDeviceListPush { peer_jid: Seq<char>, devices: Seq<u32> },
    OmemoDecrypt,
    Geolocation,
    OmemoRepublish,
}

impl View for FollowUp {
    type V = FollowUpView;

    open spec fn view(&self) -> FollowUpView {
        match self {
            FollowUp::Omemo(o) => FollowUpView::Omemo(o@),
            FollowUp::OmemoDeviceListPush { peer_jid, devices } => FollowUpView::OmemoDeviceListPush {
                peer_jid: peer_jid@,
                devices: devices@,
            },
            FollowUp::OmemoDecrypt => FollowUpView::OmemoDecrypt,
            FollowUp::Geolocation => FollowUpView::Geolocation,
            FollowUp::OmemoRepublish => FollowUpView::OmemoRepublish,
        }
    }
}

/// The events a stanza gives and the work it leaves.
pub struct Dispatched {
    pub events: Vec<XmppEvent>,
    pub follow_up: Option<FollowUp>,
}

pub open spec fn opt_follow(o: Option<FollowUp>) -> Option<FollowUpView> {
    match o {
        Some(f) => Some(f@),
        None => None,
    }
}

// ---------------------------------------------------------------------------
// Which kind of stanza it is
// ---------------------------------------------------------------------------

/// 1 a stream-management ack, 2 an ack request, 3 an iq, 4 a message,
/// 5 a presence, 6 anything else.
pub open spec fn stanza_kind(e: ElementView) -> int {
    if e.name == "a"@ && e.ns == NS_SM@ {
        1
    } else if e.name == "r"@ && e.ns == NS_SM@ {
        2
    } else if e.name == "iq"@ {
        3
    } else if e.name == "message"@ {
        4
    } else if e.name == "presence"@ {
        5
    } else {
        6
    }
}

/// The count an ack carries, when it is a `u32`.
pub open spec fn ack_h(e: ElementView) -> Option<nat> {
    match e.attr("h"@) {
        Some(h) => parse_unsigned(h, 0xFFFF_FFFF),
        None => None,
    }
}

/// The `<apply-to/>` of a moderation notice in a room.
pub open spec fn moderation(e: ElementView) -> Option<ElementView> {
    if e.attr("type"@) == Some("groupchat"@) {
        match e.child("apply-to"@, NS_FASTEN@) {
            Some(a) => if has(a, "moderated"@, NS_MODERATION@) {
                Some(a)
            } else {
                None
            },
            None => None,
        }
    } else {
        None
    }
}

/// A PubSub event child announcing items of `a` or `b`.
pub open spec fn event_with(a: Seq<char>, b: Seq<char>) -> spec_fn(ElementView) -> bool {
    |c: ElementView| c.name == "event"@ && c.ns == NS_PUBSUB_EVENT@ && first_such(c.children, attr_either("items"@, "node"@, a, b)) is Some
}

pub open spec fn has_event(e: ElementView, a: Seq<char>, b: Seq<char>) -> bool {
    first_such(e.children, event_with(a, b)) is Some
}

/// 1 moderation, 2 room message, 3 archived message, 4 own carbon,
/// 5 received carbon, 6 avatar notice, 7 location notice, 8 OMEMO device
/// list, 9 OMEMO-encrypted, 10 anything else.
pub open spec fn message_kind(e: ElementView) -> int {
    if moderation(e) is Some {
        1
    } else if is_room_message(e) {
        2
    } else if archived_message(e) is Some {
        3
    } else if carbon_of(e, "sent"@) is Some {
        4
    } else if carbon_of(e, "received"@) is Some {
        5
    } else if has_event(e, NS_AVATAR_META@, NS_AVATAR_META_DRAFT@) {
        6
    } else if has_event(e, NS_GEOLOC@, NS_GEOLOC@) {
        7
    } else if device_list_event(e) is Some {
        8
    } else if has(e, "encrypted"@, NS_OMEMO@) {
        9
    } else {
        10
    }
}

/// A `<x/>` of the room protocol with status 201: the room was just created.
pub open spec fn created_status() -> spec_fn(ElementView) -> bool {
    |c: ElementView| c.name == "x"@ && c.ns == NS_MUC_USER@ && first_such(c.children, attr_either("status"@, "code"@, "201"@, "201"@)) is Some
}

pub open spec fn room_created(e: ElementView) -> bool {
    first_such(e.children, created_status()) is Some
}

/// The message reported for an own message sent from another device.
pub open spec fn carbon_sent_events(inner: ElementView, own_jid: Seq<char>) -> Seq<XmppEventView> {
    let body = match inner.child_named("body"@) {
        Some(b) => b.text,
        None => Seq::empty(),
    };
    if body.len() > 0 {
        seq![
            XmppEventView::MessageReceived(
                IncomingMessageView {
                    id: attr_or_empty(inner, "id"@),
                    from: own_jid,
                    body,
                    is_historical: false,
                    is_encrypted: false,
                    is_trusted: false,
                },
            ),
        ]
    } else {
        Seq::empty()
    }
}

/// The archived message reported, unless empty or from a blocked sender.
pub open spec fn archive_events(m: MamMessageView, s: SessionState) -> Seq<XmppEventView> {
    if m.body.len() > 0 && !s.blocking.blocked().contains(bare_jid(m.forwarded_from)) {
        seq![
            XmppEventView::MessageReceived(
                IncomingMessageView {
                    id: m.archive_id,
                    from: m.forwarded_from,
                    body: m.body,
                    is_historical: true,
                    is_encrypted: false,
                    is_trusted: false,
                },
            ),
        ]
    } else {
        Seq::empty()
    }
}

/// A room message reported as coming from `room/nick`.
pub open spec fn room_message_event(ev: XmppEventView, e: ElementView) -> bool {
    let (room, nick) = split_slash(e.attr("from"@)->0)->0;
    match ev {
        XmppEventView::MessageReceived(m) => {
            &&& m.from == room + "/"@ + nick
            &&& m.body == body_of(e)->0
            &&& (e.attr("id"@) matches Some(id) ==> m.id == id)
            &&& (e.attr("id"@) is None ==> is_uuid_v4_text(m.id))
            &&& !m.is_historical && !m.is_encrypted && !m.is_trusted
        },
        _ => false,
    }
}

pub open spec fn device_list_of(e: ElementView) -> Seq<u32> {
    match find_desc(e, "devices"@, NS_OMEMO_V2@) {
        Some(d) => device_ids(d.children),
        None => Seq::empty(),
    }
}

/// What a `<message/>` does, by its kind.
pub open spec fn message_dispatch_ok(
    e: ElementView,
    s: SessionState,
    t: SessionState,
    events: Seq<XmppEventView>,
    out0: Seq<ElementView>,
    out1: Seq<ElementView>,
    follow: Option<FollowUpView>,
    own_jid: Seq<char>,
    flags: u8,
) -> bool {
    let k = message_kind(e);
    let from = attr_or_empty(e, "from"@);
    &&& k <= 2 ==> t == s
    &&& k >= 4 && k != 6 ==> t == SessionState { mam: t.mam, ..s }
    &&& k >= 4 ==> t.mam.pending() == s.mam.pending() && t.mam.results() == s.mam.results()
    &&& k != 5 && k != 6 && k != 10 ==> out1 == out0
    &&& k != 7 && k != 8 && k != 9 ==> follow is None
    &&& k == 1 ==> events == match moderation(e)->0.attr("id"@) {
        Some(target) => seq![XmppEventView::MessageModerated { room_jid: bare_jid(from), message_id: target }],
        None => Seq::<XmppEventView>::empty(),
    }
    &&& k == 2 ==> events.len() == 1 && room_message_event(events[0], e)
    &&& k == 3 ==> {
        let m = archived_message(e)->0;
        &&& events == archive_events(m, s)
        &&& t == SessionState { mam: t.mam, sync: t.sync, ..s }
        &&& t.mam.pending() == s.mam.pending()
        &&& t.mam.results() == (if s.mam.results().contains_key(m.query_id) {
            s.mam.results().insert(
                m.query_id,
                MamResultView { messages: s.mam.results()[m.query_id].messages.push(m), ..s.mam.results()[m.query_id] },
            )
        } else {
            s.mam.results()
        })
        &&& t.sync.pending() == s.sync.pending()
        &&& t.sync.queries() == s.sync.queries()
        &&& t.sync.received() == (if s.sync.queries().contains_key(m.query_id) {
            s.sync.received().push(m)
        } else {
            s.sync.received()
        })
        &&& t.sync.fetched() == (if s.sync.queries().contains_key(m.query_id) {
            s.sync.fetched() + 1
        } else {
            s.sync.fetched()
        })
    }
    &&& k == 4 ==> events == carbon_sent_events(carbon_of(e, "sent"@)->0, own_jid)
    &&& k == 5 ==> {
        let o = message_outcome(carbon_of(e, "received"@)->0, s.blocking, s.ignore, flags);
        &&& events == o.events
        &&& out1 == out0 + o.replies
    }
    &&& k == 6 ==> {
        &&& events.len() == 0
        &&& t == SessionState { avatar: t.avatar, mam: t.mam, ..s }
        &&& t.avatar.pending_vcards() == s.avatar.pending_vcards()
        &&& match metadata_event(e) {
            Some((sha1, mime)) => {
                &&& t.avatar.cache() == s.avatar.cache().insert(
                    from,
                    AvatarInfoView { jid: from, sha1, mime_type: mime, data: Seq::empty() },
                )
                &&& out1 == out0.push(data_request(from, sha1))
            },
            None => t.avatar.cache() == s.avatar.cache() && out1 == out0,
        }
    }
    &&& k == 7 ==> events.len() == 0 && follow == Some(FollowUpView::Geolocation)
    &&& k == 8 ==> {
        let peer = device_list_event(e)->0;
        let devices = device_list_of(e);
        &&& events == seq![XmppEventView::OmemoDeviceListReceived { jid: peer, devices }]
        &&& follow == (if s.omemo is Some {
            Some(FollowUpView::OmemoDeviceListPush { peer_jid: peer, devices })
        } else {
            None
        })
    }
    &&& k == 9 ==> events.len() == 0 && follow == (if s.omemo is Some {
        Some(FollowUpView::OmemoDecrypt)
    } else {
        None
    })
    &&& k == 10 ==> {
        let o = message_outcome(e, s.blocking, s.ignore, flags);
        &&& events == o.events
        &&& out1 == out0 + o.replies
    }
}

/// What a stanza does, by its kind: an ack drops the acknowledged stanzas,
/// an ack request answers with our count, and iq, message and presence
/// stanzas go to their handlers.
pub open spec fn dispatch_ok(
    e: ElementView,
    s: SessionState,
    t: SessionState,
    events: Seq<XmppEventView>,
    out0: Seq<ElementView>,
    out1: Seq<ElementView>,
    follow: Option<FollowUpView>,
    own_jid: Seq<char>,
    flags: u8,
) -> bool {
    let k = stanza_kind(e);
    &&& k == 1 ==> {
        &&& t == SessionState { sm: t.sm, ..s }
        &&& t.sm@ == (match ack_h(e) {
            Some(h) => after_ack(s.sm@, h as u32),
            None => s.sm@,
        })
        &&& events.len() == 0 && out1 == out0 && follow is None
    }
    &&& k == 2 ==> {
        &&& t == SessionState { sm: t.sm, ..s }
        &&& events.len() == 0 && follow is None
        &&& if s.sm@.pending_ack {
            &&& t.sm@ == (StreamMgmtView { pending_ack: false, has_sent_ack: true, ..s.sm@ })
            &&& out1 == out0.push(ack_element(s.sm@.h))
        } else {
            t.sm@ == s.sm@ && out1 == out0
        }
    }
    &&& k == 3 ==> {
        let route = route_of(e, s);
        &&& iq_next(route, e, s, t)
        &&& out1 == out0
        &&& route != 19 ==> events == events_of(route, e, s.mam, s.catchup, s.avatar, s.disco, s.account, s.conv_sync)
        &&& follow == match follow_up_of(route, e, s.omemo) {
            Some(f) => Some(FollowUpView::Omemo(f)),
            None => None,
        }
    }
    &&& k == 4 ==> message_dispatch_ok(e, s, t, events, out0, out1, follow, own_jid, flags)
    &&& k == 5 ==> {
        &&& t == SessionState { muc: t.muc, muc_config: t.muc_config, ..s }
        &&& t.muc.rooms() == rooms_after_presence(s.muc.rooms(), e)
        &&& events.len() == 0 && follow is None
        &&& if room_created(e) && e.attr("from"@) is Some {
            let room = bare_jid(e.attr("from"@)->0);
            exists|u: Seq<char>|
                {
                    let id = "muc-config-req-"@ + u;
                    &&& #[trigger] is_uuid_v4_text(u)
                    &&& out1 == out0.push(owner_iq(id, room, "get"@, elem("query"@, NS_MUC_OWNER@)))
                    &&& t.muc_config.pending() == s.muc_config.pending().insert(id, MucConfigQueryView::RequestConfig { room_jid: room })
                }
        } else {
            out1 == out0 && t.muc_config.pending() == s.muc_config.pending()
        }
    }
    &&& k == 6 ==> t == s && events.len() == 0 && out1 == out0 && follow is None
}

// ---------------------------------------------------------------------------
// Routing, executably
// ---------------------------------------------------------------------------

fn has_event_exec(el: &Element, a: &str, b: &str) -> (r: bool)
    ensures
        r == has_event(el@, a@, b@),
{
    let ghost p = event_with(a@, b@);
    let ghost cs = el@.children;
    proof {
        lemma_children_view(*el);
    }
    let mut i: usize = 0;
    while i < el.children.len()
        invariant
            i <= el.children.len(),
            cs == el@.children,
            p == event_with(a@, b@),
            cs.len() == el.children@.len(),
            forall|j: int| 0 <= j < el.children@.len() ==> #[trigger] cs[j] == el.children@[j]@,
            forall|j: int| 0 <= j < i ==> !p(#[trigger] cs[j]),
        decreases el.children.len() - i,
    {
        let c = &el.children[i];
        let hit = str_eq(c.name(), "event") && str_eq(c.ns(), NS_PUBSUB_EVENT) && c.find_child_attr_either("items", "node", a, b).is_some();
        assert(c@ == cs[i as int]);
        assert(hit == p(cs[i as int]));
        if hit {
            proof {
                lemma_first_such_skip(cs, p, i as int);
                assert(cs.skip(i as int)[0] == cs[i as int]);
            }
            return true;
        }
        i += 1;
    }
    proof {
        lemma_first_such_skip(cs, p, i as int);
        assert(cs.skip(i as int).len() == 0);
    }
    false
}

fn room_created_exec(el: &Element) -> (r: bool)
    ensures
        r == room_created(el@),
{
    let ghost p = created_status();
    let ghost cs = el@.children;
    proof {
        lemma_children_view(*el);
    }
    let mut i: usize = 0;
    while i < el.children.len()
        invariant
            i <= el.children.len(),
            cs == el@.children,
            p == created_status(),
            cs.len() == el.children@.len(),
            forall|j: int| 0 <= j < el.children@.len() ==> #[trigger] cs[j] == el.children@[j]@,
            forall|j: int| 0 <= j < i ==> !p(#[trigger] cs[j]),
        decreases el.children.len() - i,
    {
        let c = &el.children[i];
        let hit = str_eq(c.name(), "x") && str_eq(c.ns(), NS_MUC_USER) && c.find_child_attr_either("status", "code", "201", "201").is_some();
        assert(c@ == cs[i as int]);
        assert(hit == p(cs[i as int]));
        if hit {
            proof {
                lemma_first_such_skip(cs, p, i as int);
                assert(cs.skip(i as int)[0] == cs[i as int]);
            }
            return true;
        }
        i += 1;
    }
    proof {
        lemma_first_such_skip(cs, p, i as int);
        assert(cs.skip(i as int).len() == 0);
    }
    false
}

fn moderation_of(el: &Element) -> (r: Option<&Element>)
    ensures
        match r {
            Some(a) => moderation(el@) == Some(a@),
            None => moderation(el@) is None,
        },
{
    if !el.attr_is("type", "groupchat") {
        return None;
    }
    match el.get_child("apply-to", NS_FASTEN) {
        Some(a) => if a.get_child("moderated", NS_MODERATION).is_some() {
            Some(a)
        } else {
            None
        },
        None => None,
    }
}

fn nothing() -> (r: Dispatched)
    ensures
        r.events@.len() == 0,
        r.follow_up is None,
{
    Dispatched { events: Vec::new(), follow_up: None }
}

fn just_events(events: Vec<XmppEvent>) -> (r: Dispatched)
    ensures
        r.events == events,
        r.follow_up is None,
{
    Dispatched { events, follow_up: None }
}

/// Routes a `<message/>` (the message part of [`dispatch_stanza`]).
#[verifier::rlimit(60)]
fn dispatch_message(
    el: &Element,
    st: &mut SessionState,
    outbox: &mut VecDeque<Element>,
    own_jid: &str,
    privacy_flags: u8,
) -> (r: Dispatched)
    requires
        old(st).sync.fetched() < usize::MAX,
    ensures
        message_dispatch_ok(
            el@,
            *old(st),
            *final(st),
            views(r.events@),
            views(old(outbox)@),
            views(final(outbox)@),
            opt_follow(r.follow_up),
            own_jid@,
            privacy_flags,
        ),
{
    let ghost s0 = *st;
    let from = match el.attr("from") {
        Some(f) => f.to_owned(),
        None => String::new(),
    };
    if let Some(a) = moderation_of(el) {
        let ghost fv = attr_or_empty(el@, "from"@);
        assert(from@ == fv);
        let events = match a.attr("id") {
            Some(target) => {
                let room = bare_jid_of(from.as_str());
                assert(room@ == bare_jid(fv));
                let ev = XmppEvent::MessageModerated { room_jid: room, message_id: target.to_owned() };
                assert(ev@ == XmppEventView::MessageModerated { room_jid: bare_jid(fv), message_id: target@ });
                one(ev)
            },
            None => Vec::new(),
        };
        assert(views(events@) == match moderation(el@)->0.attr("id"@) {
            Some(target) => seq![XmppEventView::MessageModerated { room_jid: bare_jid(fv), message_id: target }],
            None => Seq::<XmppEventView>::empty(),
        });
        return just_events(events);
    }
    if let Some(m) = st.muc.on_groupchat_message(el) {
        let sender = concat(concat(m.room_jid.as_str(), "/").as_str(), m.from_nick.as_str());
        let ev = XmppEvent::MessageReceived(
            IncomingMessage { id: m.id, from: sender, body: m.body, is_historical: false, is_encrypted: false, is_trusted: false },
        );
        let events = one(ev);
        assert(views(events@).len() == 1);
        assert(events@.len() == 1);
        assert(views(events@)[0] == events@[0]@);
        return just_events(events);
    }
    if let Some(m) = st.mam.on_mam_message(el) {
        let ghost mv = m@;
        assert(mv == archived_message(el@)->0);
        let _ = st.sync.on_mam_result(m.copy());
        let bare = bare_jid_of(m.forwarded_from.as_str());
        assert(st.blocking == s0.blocking);
        let events = if !m.body.as_str().is_empty() && !st.blocking.is_blocked(bare.as_str()) {
            one(
                XmppEvent::MessageReceived(
                    IncomingMessage {
                        id: m.archive_id,
                        from: m.forwarded_from,
                        body: m.body,
                        is_historical: true,
                        is_encrypted: false,
                        is_trusted: false,
                    },
                ),
            )
        } else {
            Vec::new()
        };
        assert(views(events@) =~= archive_events(mv, s0));
        return just_events(events);
    }
    if let Some(inner) = extract_carbon(el, "sent") {
        let body = match inner.get_child_named("body") {
            Some(b) => b.text(),
            None => String::new(),
        };
        let events = if !body.as_str().is_empty() {
            let id = match inner.attr("id") {
                Some(i) => i.to_owned(),
                None => String::new(),
            };
            one(
                XmppEvent::MessageReceived(
                    IncomingMessage { id, from: own_jid.to_owned(), body, is_historical: false, is_encrypted: false, is_trusted: false },
                ),
            )
        } else {
            Vec::new()
        };
        assert(views(events@) =~= carbon_sent_events(inner@, own_jid@));
        return just_events(events);
    }
    if let Some(inner) = extract_carbon(el, "received") {
        let events = handle_message(&inner, &st.blocking, &st.ignore, outbox, privacy_flags);
        return just_events(events);
    }
    if has_event_exec(el, NS_AVATAR_META, NS_AVATAR_META_DRAFT) {
        if let Some(info) = st.avatar.on_avatar_metadata_event(from.as_str(), el) {
            let fetch = st.avatar.build_avatar_data_request(info.jid.as_str(), info.sha1.as_str());
            let ghost before = outbox@;
            outbox.push_back(fetch);
            assert(views(outbox@) =~= views(before).push(fetch@));
        }
        return nothing();
    }
    if has_event_exec(el, NS_GEOLOC, NS_GEOLOC) {
        return Dispatched { events: Vec::new(), follow_up: Some(FollowUp::Geolocation) };
    }
    if let Some(peer) = DeviceManager::is_device_list_event(el) {
        let devices = DeviceManager::parse_device_list(el);
        let follow_up = if st.omemo.is_some() {
            Some(FollowUp::OmemoDeviceListPush { peer_jid: peer.clone(), devices: copy_ids(&devices) })
        } else {
            None
        };
        let events = one(XmppEvent::OmemoDeviceListReceived { jid: peer, devices });
        return Dispatched { events, follow_up };
    }
    if el.get_child("encrypted", NS_OMEMO).is_some() {
        let follow_up = if st.omemo.is_some() {
            Some(FollowUp::OmemoDecrypt)
        } else {
            None
        };
        return Dispatched { events: Vec::new(), follow_up };
    }
    let events = handle_message(el, &st.blocking, &st.ignore, outbox, privacy_flags);
    just_events(events)
}

fn copy_ids(v: &Vec<u32>) -> (r: Vec<u32>)
    ensures
        r@ == v@,
{
    let mut out: Vec<u32> = Vec::new();
    let mut i: usize = 0;
    while i < v.len()
        invariant
            i <= v.len(),
            out@ == v@.take(i as int),
        decreases v.len() - i,
    {
        out.push(v[i]);
        i += 1;
        assert(out@ =~= v@.take(i as int));
    }
    assert(v@.take(i as int) =~= v@);
    out
}

/// The console entry of a stanza received.
pub open spec fn console_recv(e: ElementView) -> XmppEventView {
    XmppEventView::ConsoleEntry { direction: "recv"@, xml: stanza_text(e) }
}

/// What a stanza from the server does: first its XML goes to the debug
/// console; then it is routed as [`dispatch_ok`] says: the events reported,
/// in order, the stanzas appended to `outbox`, and the work left for the
/// engine. `own_jid` is the bound JID, `privacy_flags` the
/// receipt/typing/read-marker switches (bit 0: send receipts).
pub fn dispatch_stanza(
    el: &Element,
    st: &mut SessionState,
    outbox: &mut VecDeque<Element>,
    own_jid: &str,
    privacy_flags: u8,
) -> (r: Dispatched)
    requires
        old(st).sync.fetched() < usize::MAX,
    ensures
        views(r.events@).len() >= 1,
        views(r.events@)[0] == console_recv(el@),
        dispatch_ok(
            el@,
            *old(st),
            *final(st),
            views(r.events@).skip(1),
            views(old(outbox)@),
            views(final(outbox)@),
            opt_follow(r.follow_up),
            own_jid@,
            privacy_flags,
        ),
        stanza_kind(el@) == 3 && route_of(el@, *old(st)) == 19 ==> ignore_event_ok(el@, r.events@.skip(1), final(st).ignore),
{
    let xml = stanza_xml(el);
    let d = route_stanza(el, st, outbox, own_jid, privacy_flags);
    let Dispatched { events: mut rest, follow_up } = d;
    let ghost rv = rest@;
    let mut events = one(XmppEvent::ConsoleEntry { direction: "recv".to_owned(), xml });
    let ghost ev0 = events@;
    proof {
        assert(views(ev0).len() == 1);
        assert(ev0.len() == 1);
        assert(views(ev0)[0] == ev0[0]@);
    }
    events.append(&mut rest);
    proof {
        assert(events@ =~= ev0 + rv);
        assert(events@.skip(1) =~= rv);
        assert(views(events@).skip(1) =~= views(rv));
        assert(views(events@)[0] == ev0[0]@);
    }
    Dispatched { events, follow_up }
}

/// Routes a stanza from the server (see [`dispatch_ok`]).
#[verifier::rlimit(60)]
fn route_stanza(
    el: &Element,
    st: &mut SessionState,
    outbox: &mut VecDeque<Element>,
    own_jid: &str,
    privacy_flags: u8,
) -> (r: Dispatched)
    requires
        old(st).sync.fetched() < usize::MAX,
    ensures
        dispatch_ok(
            el@,
            *old(st),
            *final(st),
            views(r.events@),
            views(old(outbox)@),
            views(final(outbox)@),
            opt_follow(r.follow_up),
            own_jid@,
            privacy_flags,
        ),
        stanza_kind(el@) == 3 && route_of(el@, *old(st)) == 19 ==> ignore_event_ok(el@, r.events@, final(st).ignore),
{
    if str_eq(el.name(), "a") && str_eq(el.ns(), NS_SM) {
        if let Some(h) = el.attr("h") {
            let v = chars_of(h);
            if let Some(n) = parse_unsigned_chars(&v, 0, 0xFFFF_FFFF) {
                assert(v@.skip(0) =~= v@);
                st.sm.on_ack_received(n as u32);
            } else {
                assert(v@.skip(0) =~= v@);
            }
        }
        return nothing();
    }
    if str_eq(el.name(), "r") && str_eq(el.ns(), NS_SM) {
        if let Some(ack) = st.sm.flush_ack() {
            let ghost before = outbox@;
            outbox.push_back(ack);
            assert(views(outbox@) =~= views(before).push(ack@));
        }
        return nothing();
    }
    if str_eq(el.name(), "iq") {
        let IqOutcome { events, omemo } = handle_iq(el, st);
        let follow_up = match omemo {
            Some(f) => Some(FollowUp::Omemo(f)),
            None => None,
        };
        return Dispatched { events, follow_up };
    }
    if str_eq(el.name(), "message") {
        return dispatch_message(el, st, outbox, own_jid, privacy_flags);
    }
    if str_eq(el.name(), "presence") {
        st.muc.on_presence(el);
        if room_created_exec(el) {
            if let Some(f) = el.attr("from") {
                let room = bare_jid_of(f);
                let (_, iq) = st.muc_config.build_config_request(room.as_str());
                let ghost before = outbox@;
                outbox.push_back(iq);
                assert(views(outbox@) =~= views(before).push(iq@));
            }
        }
        return nothing();
    }
    nothing()
}

// ---------------------------------------------------------------------------
// Events of the connection
// ---------------------------------------------------------------------------

/// What the connection reports to the engine.
#[derive(Debug)]
pub enum ClientEvent {
    /// The session is established under `bound_jid`.
    Online { bound_jid: String },
    /// The connection was lost, with the error's text.
    Disconnected { error: String },
    /// A stanza or nonza arrived.
    Stanza(Element),
}

/// What the engine does about a connection event: the events reported,
/// the work left, and whether the session loop must stop.
pub struct ClientOutcome {
    pub events: Vec<XmppEvent>,
    pub follow_up: Option<FollowUp>,
    pub stop: bool,
}

/// Conversation name of the catch-up query for the whole archive.
pub const SERVER_CATCHUP: &'static str = "__server__";

pub open spec fn is_sm_nonza(e: ElementView) -> bool {
    e.ns == NS_SM@ && (e.name == "a"@ || e.name == "r"@)
}

/// What receiving `e` does to stream management before routing it: a
/// counted stanza raises the count and may send the coalesced ack.
pub open spec fn stanza_pre(e: ElementView, s: SessionState, s1: SessionState, out0: Seq<ElementView>, mid: Seq<ElementView>) -> bool {
    if is_sm_nonza(e) {
        s1 == s && mid == out0
    } else {
        let r = StreamMgmtView { h: (s.sm@.h + 1) as u32, pending_ack: true, ..s.sm@ };
        &&& s1 == SessionState { sm: s1.sm, ..s }
        &&& ((s1.sm@ == r && mid == out0 && r.has_sent_ack) || (s1.sm@ == (StreamMgmtView { pending_ack: false, has_sent_ack: true, ..r })
            && mid == out0.push(ack_element(r.h))))
    }
}

/// The archive query for the last 50 messages of the whole archive.
pub open spec fn is_server_catchup_query(q: MamQuery, qid: Seq<char>) -> bool {
    &&& q.query_id@ == qid
    &&& q.filter.with is None && q.filter.start is None && q.filter.end is None
    &&& q.rsm.max == 50 && q.rsm.after is None && q.rsm.before is None
}

/// The stanzas sent once online, after those queued before.
pub open spec fn online_stanzas(
    new: Seq<ElementView>,
    s: SessionState,
    t: SessionState,
    status: Option<Seq<char>>,
    push_service: Option<&str>,
) -> bool {
    &&& new.len() == (if push_service is Some { 9int } else { 8int })
    &&& exists|id: Seq<char>| #[trigger] is_uuid_v4_text(id) && new[0] == roster_get(id)
    &&& exists|id: Seq<char>| #[trigger] is_uuid_v4_text(id) && new[1] == carbons_enable(id)
    &&& new[2] == presence_with_caps(s.disco.own_caps(), status)
    &&& exists|id: Seq<char>| #[trigger] is_uuid_v4_text(id) && new[3] == iq_with("get"@, id, elem("blocklist"@, NS_BLOCKING@))
    &&& exists|qid: Seq<char>, id: Seq<char>, q: MamQuery|
        {
            &&& is_uuid_v4_text(qid) && is_uuid_v4_text(id)
            &&& #[trigger] is_server_catchup_query(q, qid)
            &&& new[4] == #[trigger] query_iq(id, q)
            &&& t.catchup.states() == s.catchup.states().insert(
                SERVER_CATCHUP@,
                CatchupStateView::Fetching { query_id: qid, after: None },
            )
            &&& t.catchup.queries() == s.catchup.queries().insert(qid, SERVER_CATCHUP@)
            &&& t.mam.pending() == s.mam.pending().insert(qid, q)
            &&& t.mam.results() == s.mam.results().insert(
                qid,
                MamResultView { messages: Seq::empty(), rsm: RsmSetView { first: None, last: None, count: None }, complete: false },
            )
        }
    &&& new[5] == bookmarks_get()
    &&& exists|id: Seq<char>| #[trigger] is_uuid_v4_text(id) && new[6] == mam_prefs_get(id)
    &&& exists|id: Seq<char>| #[trigger] is_uuid_v4_text(id) && new[7] == set_iq(id, elem("disable"@, NS_PUSH@))
    &&& match push_service {
        Some(svc) => exists|id: Seq<char>, node: Seq<char>, secret: Seq<char>|
            {
                &&& is_uuid_v4_text(id) && is_uuid_v4_text(node) && is_hex_text(secret, 32)
                &&& new[8] == #[trigger] set_iq(id, enable_payload(svc@, node, secret))
                &&& t.push.pending_enable() == s.push.pending_enable().insert(id, svc@)
            },
        None => t.push.pending_enable() == s.push.pending_enable(),
    }
    &&& t.push.subscriptions() == s.push.subscriptions()
}

/// What the engine does about a connection event.
///
/// Online: reset the reconnect counter, remember the bound JID, mark
/// presence online, queue the session's opening requests (roster, carbons,
/// presence with capabilities, block list, archive catch-up, bookmarks,
/// archive preferences, clearing stale push registrations, and enabling push
/// when a service is configured), report `Connected`, and republish OMEMO
/// keys when OMEMO is on.
///
/// Disconnected: mark presence offline, reset stream management and the
/// catch-up; an authentication error is reported as `Disconnected` and
/// stops the loop, any other error counts a reconnect attempt.
///
/// Stanza: count it (unless it is an ack or ack request), send the
/// coalesced ack when due, and route it with [`dispatch_stanza`].
#[verifier::rlimit(100)]
#[verifier::spinoff_prover]
pub fn handle_client_event(
    ev: ClientEvent,
    st: &mut SessionState,
    outbox: &mut VecDeque<Element>,
    reconnect_attempt: &mut u32,
    own_jid: &mut String,
    status_message: Option<&str>,
    push_service_jid: Option<&str>,
    privacy_flags: u8,
) -> (r: ClientOutcome)
    requires
        ev is Disconnected ==> *old(reconnect_attempt) < u32::MAX,
        ev matches ClientEvent::Stanza(el) ==> old(st).sync.fetched() < usize::MAX && (!is_sm_nonza(el@) ==> old(st).sm@.h
            < u32::MAX),
    ensures
        match ev {
            ClientEvent::Online { bound_jid } => {
                &&& *final(reconnect_attempt) == 0
                &&& final(own_jid)@ == bound_jid@
                &&& *final(st) == SessionState {
                    presence: final(st).presence,
                    catchup: final(st).catchup,
                    mam: final(st).mam,
                    push: final(st).push,
                    ..*old(st)
                }
                &&& final(st).presence.model() == (PresenceModel { online: true, ..old(st).presence.model() })
                &&& views(final(outbox)@).len() >= views(old(outbox)@).len()
                &&& views(final(outbox)@).take(views(old(outbox)@).len() as int) == views(old(outbox)@)
                &&& online_stanzas(
                    views(final(outbox)@).skip(views(old(outbox)@).len() as int),
                    *old(st),
                    *final(st),
                    opt_str(status_message),
                    push_service_jid,
                )
                &&& views(r.events@) == seq![XmppEventView::Connected { bound_jid: bound_jid@ }]
                &&& opt_follow(r.follow_up) == (if old(st).omemo is Some {
                    Some(FollowUpView::OmemoRepublish)
                } else {
                    None
                })
                &&& !r.stop
            },
            ClientEvent::Disconnected { error } => {
                &&& *final(st) == SessionState { presence: final(st).presence, sm: final(st).sm, catchup: final(st).catchup, ..*old(st) }
                &&& final(st).presence.model() == (PresenceModel { online: false, ..old(st).presence.model() })
                &&& final(st).sm@ == fresh_stream()
                &&& final(st).catchup.states() == Map::<Seq<char>, CatchupStateView>::empty()
                &&& final(st).catchup.queries() == Map::<Seq<char>, Seq<char>>::empty()
                &&& final(outbox)@ == old(outbox)@
                &&& final(own_jid)@ == old(own_jid)@
                &&& r.follow_up is None
                &&& if auth_error(error@) {
                    &&& r.stop
                    &&& *final(reconnect_attempt) == *old(reconnect_attempt)
                    &&& views(r.events@) == seq![XmppEventView::Disconnected { reason: error@ }]
                } else {
                    &&& !r.stop
                    &&& *final(reconnect_attempt) == *old(reconnect_attempt) + 1
                    &&& views(r.events@) == seq![XmppEventView::Reconnecting { attempt: (*old(reconnect_attempt) + 1) as u32 }]
                }
            },
            ClientEvent::Stanza(el) => {
                &&& !r.stop
                &&& *final(reconnect_attempt) == *old(reconnect_attempt)
                &&& final(own_jid)@ == old(own_jid)@
                &&& views(r.events@).len() >= 1
                &&& views(r.events@)[0] == console_recv(el@)
                &&& exists|s1: SessionState, mid: Seq<ElementView>|
                    {
                        &&& #[trigger] stanza_pre(el@, *old(st), s1, views(old(outbox)@), mid)
                        &&& dispatch_ok(
                            el@,
                            s1,
                            *final(st),
                            views(r.events@).skip(1),
                            mid,
                            views(final(outbox)@),
                            opt_follow(r.follow_up),
                            old(own_jid)@,
                            privacy_flags,
                        )
                    }
            },
        },
{
    match ev {
        ClientEvent::Online { bound_jid } => {
            *reconnect_attempt = 0;
            *own_jid = bound_jid.clone();
            let ghost o0 = views(outbox@);
            let ghost s0 = *st;
            st.presence.on_connected();
            let roster = make_roster_get();
            let carbons = make_carbons_enable();
            let presence = make_presence_with_caps(&st.disco, status_message);
            let blocklist = st.blocking.build_fetch_iq();
            let (_, started) = st.catchup.start(SERVER_CATCHUP, None);
            let query = MamQuery {
                query_id: started.query_id,
                filter: MamFilter { with: None, start: None, end: None },
                rsm: RsmQuery { max: 50, after: None, before: None },
            };
            let ghost qv = query;
            let catchup_iq = st.mam.build_query_iq(query);
            let bookmarks = make_bookmarks_get_iq();
            let prefs = make_mam_prefs_get_iq();
            let disable_all = st.push.build_disable_all_iq();
            let ghost new0 = seq![roster@, carbons@, presence@, blocklist@, catchup_iq@, bookmarks@, prefs@, disable_all@];
            outbox.push_back(roster);
            outbox.push_back(carbons);
            outbox.push_back(presence);
            outbox.push_back(blocklist);
            outbox.push_back(catchup_iq);
            outbox.push_back(bookmarks);
            outbox.push_back(prefs);
            outbox.push_back(disable_all);
            let ghost new1 = new0;
            assert(views(outbox@) =~= o0 + new0);
            let ghost p0 = st.push.pending_enable();
            assert(p0 == s0.push.pending_enable());
            if let Some(svc) = push_service_jid {
                let enable = st.push.build_enable_iq(svc);
                proof {
                    new1 = new0.push(enable@);
                    assert(new1[8] == enable@);
                    assert(exists|id: Seq<char>, node: Seq<char>, secret: Seq<char>|
                        {
                            &&& is_uuid_v4_text(id) && is_uuid_v4_text(node) && is_hex_text(secret, 32)
                            &&& new1[8] == #[trigger] set_iq(id, enable_payload(svc@, node, secret))
                            &&& st.push.pending_enable() == p0.insert(id, svc@)
                        });
                }
                outbox.push_back(enable);
                assert(views(outbox@) =~= o0 + new1);
            }
            assert(push_service_jid matches Some(svc) ==> exists|id: Seq<char>, node: Seq<char>, secret: Seq<char>|
                {
                    &&& is_uuid_v4_text(id) && is_uuid_v4_text(node) && is_hex_text(secret, 32)
                    &&& new1[8] == #[trigger] set_iq(id, enable_payload(svc@, node, secret))
                    &&& st.push.pending_enable() == p0.insert(id, svc@)
                });
            assert(views(outbox@).take(o0.len() as int) =~= o0);
            assert(views(outbox@).skip(o0.len() as int) =~= new1);
            assert(is_server_catchup_query(qv, qv.query_id@));
            proof {
                let iid = new1[4].attr("id"@)->0;
                assert(new1[4] == query_iq(iid, qv));
                assert(is_uuid_v4_text(iid));
                assert(new1.len() == (if push_service_jid is Some { 9int } else { 8int }));
                assert(exists|id: Seq<char>| #[trigger] is_uuid_v4_text(id) && new1[0] == roster_get(id));
                assert(exists|id: Seq<char>| #[trigger] is_uuid_v4_text(id) && new1[1] == carbons_enable(id));
                assert(new1[2] == presence_with_caps(s0.disco.own_caps(), opt_str(status_message)));
                assert(exists|id: Seq<char>| #[trigger] is_uuid_v4_text(id) && new1[3] == iq_with("get"@, id, elem("blocklist"@, NS_BLOCKING@)));
                assert(new1[5] == bookmarks_get());
                assert(exists|id: Seq<char>| #[trigger] is_uuid_v4_text(id) && new1[6] == mam_prefs_get(id));
                assert(exists|id: Seq<char>| #[trigger] is_uuid_v4_text(id) && new1[7] == set_iq(id, elem("disable"@, NS_PUSH@)));
                assert(st.push.subscriptions() == s0.push.subscriptions());
                let qid = qv.query_id@;
                assert(is_uuid_v4_text(qid));
                assert(st.catchup.queries() == s0.catchup.queries().insert(qid, SERVER_CATCHUP@));
                assert(st.catchup.states() == s0.catchup.states().insert(SERVER_CATCHUP@, CatchupStateView::Fetching { query_id: qid, after: None }));
                assert(st.mam.pending() == s0.mam.pending().insert(qid, qv));
                assert(exists|qid: Seq<char>, id: Seq<char>, q: MamQuery|
                    {
                        &&& is_uuid_v4_text(qid) && is_uuid_v4_text(id)
                        &&& #[trigger] is_server_catchup_query(q, qid)
                        &&& new1[4] == #[trigger] query_iq(id, q)
                        &&& st.catchup.states() == s0.catchup.states().insert(
                            SERVER_CATCHUP@,
                            CatchupStateView::Fetching { query_id: qid, after: None },
                        )
                        &&& st.catchup.queries() == s0.catchup.queries().insert(qid, SERVER_CATCHUP@)
                        &&& st.mam.pending() == s0.mam.pending().insert(qid, q)
                        &&& st.mam.results() == s0.mam.results().insert(
                            qid,
                            MamResultView { messages: Seq::empty(), rsm: RsmSetView { first: None, last: None, count: None }, complete: false },
                        )
                    });
                assert(online_stanzas(new1, s0, *st, opt_str(status_message), push_service_jid));
            }
            let follow_up = if st.omemo.is_some() {
                Some(FollowUp::OmemoRepublish)
            } else {
                None
            };
            let events = one(XmppEvent::Connected { bound_jid });
            ClientOutcome { events, follow_up, stop: false }
        },
        ClientEvent::Disconnected { error } => {
            st.presence.on_disconnected();
            st.sm.reset();
            st.catchup.reset();
            if is_auth_error(error.as_str()) {
                let events = one(XmppEvent::Disconnected { reason: error });
                return ClientOutcome { events, follow_up: None, stop: true };
            }
            *reconnect_attempt = *reconnect_attempt + 1;
            let events = one(XmppEvent::Reconnecting { attempt: *reconnect_attempt });
            ClientOutcome { events, follow_up: None, stop: false }
        },
        ClientEvent::Stanza(el) => {
            let ghost o0 = views(outbox@);
            let ghost s0 = *st;
            let counted = !(str_eq(el.ns(), NS_SM) && (str_eq(el.name(), "a") || str_eq(el.name(), "r")));
            if counted {
                st.sm.on_stanza_received();
                if let Some(ack) = st.sm.maybe_send_ack() {
                    outbox.push_back(ack);
                    assert(views(outbox@) =~= o0.push(ack@));
                }
            }
            let ghost s1 = *st;
            let ghost mid = views(outbox@);
            assert(stanza_pre(el@, s0, s1, o0, mid));
            let d = dispatch_stanza(&el, st, outbox, own_jid.as_str(), privacy_flags);
            ClientOutcome { events: d.events, follow_up: d.follow_up, stop: false }
        },
    }
}

} // verus!
