//! Incoming `<message/>` stanzas: invitations, reactions, corrections,
//! retractions, receipts, read markers, typing notifications and chat
//! messages.
use vstd::prelude::*;
use std::collections::VecDeque;
use crate::util::strs::{bare_jid, bare_jid_of, chars_of, find_char, first_index, str_eq};
use crate::util::xml_text::{stanza_text, stanza_xml};
use crate::util::xml::{Element, ElementView, elem, first_child, first_such, lemma_children_view, lemma_first_such_skip, opt_view};
use crate::xmpp::modules::blocking::BlockingManager;
use crate::xmpp::modules::ignore::IgnoreManager;
use crate::xmpp::modules::message_mutations::{MutationManager, parsed_correction, parsed_reaction, parsed_retraction};
use crate::xmpp::modules::{NS_CLIENT, NS_MUC_USER, NS_X_CONFERENCE};
use crate::xmpp::{IncomingMessage, XmppEvent, XmppEventView, live_message, views};
use super::{NS_CHATSTATES, NS_CHAT_MARKERS, NS_RECEIPTS};

verus! {

broadcast use crate::util::xml::group_xml;

/// The events a stanza gives and the stanzas sent back for it.
pub struct Outcome {
    pub events: Seq<XmppEventView>,
    pub replies: Seq<ElementView>,
}

pub open spec fn nothing() -> Outcome {
    Outcome { events: Seq::empty(), replies: Seq::empty() }
}

pub open spec fn just(ev: XmppEventView) -> Outcome {
    Outcome { events: seq![ev], replies: Seq::empty() }
}

/// The value of attribute `k`, or the empty string.
pub open spec fn attr_or_empty(e: ElementView, k: Seq<char>) -> Seq<char> {
    match e.attr(k) {
        Some(v) => v,
        None => Seq::empty(),
    }
}

/// The text of the first `<reason>` child, if any.
pub open spec fn reason_of(x: ElementView) -> Option<Seq<char>> {
    match x.child_named("reason"@) {
        Some(r) => Some(r.text),
        None => None,
    }
}

pub open spec fn has_child(e: ElementView, n: Seq<char>, ns: Seq<char>) -> bool {
    first_child(e.children, n, Some(ns)) is Some
}

/// The message types a `<message/>` may carry (RFC 6121 §5.2.2).
pub open spec fn known_message_type(t: Option<Seq<char>>) -> bool {
    match t {
        None => true,
        Some(t) => t == "chat"@ || t == "error"@ || t == "groupchat"@ || t == "headline"@ || t == "normal"@,
    }
}

/// A `<body>` without a language tag.
pub open spec fn plain_body_pred() -> spec_fn(ElementView) -> bool {
    |c: ElementView| c.name == "body"@ && c.ns == NS_CLIENT@ && (c.attr("xml:lang"@) is None || c.attr("xml:lang"@) == Some(""@))
}

/// The text of the message's body in the default language.
pub open spec fn plain_body(e: ElementView) -> Option<Seq<char>> {
    match first_such(e.children, plain_body_pred()) {
        Some(b) => Some(b.text),
        None => None,
    }
}

/// The receipt acknowledging message `id` to `to`.
pub open spec fn receipt_reply(to: Seq<char>, id: Seq<char>) -> ElementView {
    elem("message"@, NS_CLIENT@).with_attr("to"@, to).with_child(elem("received"@, NS_RECEIPTS@).with_attr("id"@, id))
}

/// The typing notification a message carries, if any.
pub open spec fn typing_events(e: ElementView) -> Seq<XmppEventView> {
    let composing = has_child(e, "composing"@, NS_CHATSTATES@);
    let paused = has_child(e, "paused"@, NS_CHATSTATES@) || has_child(e, "inactive"@, NS_CHATSTATES@);
    if composing || paused {
        match e.attr("from"@) {
            Some(f) => seq![XmppEventView::PeerTyping { jid: bare_jid(f), composing }],
            None => Seq::empty(),
        }
    } else {
        Seq::empty()
    }
}

/// What `xmpp_parsers` makes of the stanza whose XML text is `xml`: nothing
/// where it is not a valid `<message/>`, else its sender's JID as the `jid`
/// crate prints it, when it names one.
pub uninterp spec fn parsed_message_sender(xml: Seq<char>) -> Option<Option<Seq<char>>>;

/// Reads `xml` as an XML element (`minidom::Element::from_str`) and that as
/// a message (`xmpp_parsers::message::Message::try_from`), returning the
/// printed JID of its sender. Both steps depend on the text alone.
#[verifier::external_body]
fn message_sender(xml: &str) -> (r: Option<Option<String>>)
    ensures
        r matches Some(f) ==> parsed_message_sender(xml@) == Some(opt_string(f)),
        r is None ==> parsed_message_sender(xml@) is None,
{
    let el = xml.parse::<xmpp_parsers::minidom::Element>().ok()?;
    let msg = xmpp_parsers::message::Message::try_from(el).ok()?;
    match msg.from {
        Some(j) => Some(Some(j.to_string())),
        None => Some(None),
    }
}

/// A chat message that reaches the user: one that `xmpp_parsers` reads as
/// a message (handed its XML text), not an error, with a body and a sender,
/// not blocked and not ignored in the room it comes from, reported under
/// the sender's normalized JID; a receipt goes back to the sender as
/// written when it asks for one and receipts are enabled.
pub open spec fn delivery_outcome(e: ElementView, blocking: BlockingManager, ignore: IgnoreManager, flags: u8) -> Outcome {
    if !(e.name == "message"@ && e.ns == NS_CLIENT@ && known_message_type(e.attr("type"@))) || e.attr("type"@) == Some(
        "error"@,
    ) {
        nothing()
    } else {
        match parsed_message_sender(stanza_text(e)) {
            None => nothing(),
            Some(sender) => {
                let typing = typing_events(e);
                match (plain_body(e), sender) {
                    (Some(body), Some(from)) => {
                        let bare = bare_jid(from);
                        if blocking.blocked().contains(bare) || (first_index(from, '/') is Some && ignore.ignored_in(bare).contains(
                            bare,
                        )) {
                            Outcome { events: typing, replies: Seq::empty() }
                        } else {
                            let id = attr_or_empty(e, "id"@);
                            let replies = if flags & 1u8 != 0 && has_child(e, "request"@, NS_RECEIPTS@) && e.attr("id"@) is Some
                                && e.attr("from"@) is Some {
                                seq![receipt_reply(e.attr("from"@)->0, id)]
                            } else {
                                Seq::empty()
                            };
                            Outcome {
                                events: typing.push(XmppEventView::MessageReceived(live_message(id, from, body))),
                                replies,
                            }
                        }
                    },
                    _ => Outcome { events: typing, replies: Seq::empty() },
                }
            },
        }
    }
}

/// What a `<message/>` gives, taking the first of these that applies: a
/// direct invitation, a mediated invitation, a reaction, a correction, a
/// retraction (the last three dropped when the sender is blocked), a
/// delivery receipt, a read marker, and otherwise a chat message.
pub open spec fn message_outcome(e: ElementView, blocking: BlockingManager, ignore: IgnoreManager, flags: u8) -> Outcome {
    let bare = bare_jid(attr_or_empty(e, "from"@));
    let blocked = blocking.blocked().contains(bare);
    match first_child(e.children, "x"@, Some(NS_X_CONFERENCE@)) {
        Some(x) => match x.attr("jid"@) {
            Some(room) => just(XmppEventView::RoomInvitationReceived { room_jid: room, from_jid: bare, reason: reason_of(x) }),
            None => nothing(),
        },
        None => match first_child(e.children, "x"@, Some(NS_MUC_USER@)) {
            Some(x) => match x.child_named("invite"@) {
                Some(inv) => just(
                    XmppEventView::RoomInvitationReceived { room_jid: bare, from_jid: attr_or_empty(inv, "from"@), reason: reason_of(inv) },
                ),
                None => nothing(),
            },
            None => match parsed_reaction(bare, e) {
                Some(u) => if blocked {
                    nothing()
                } else {
                    just(XmppEventView::ReactionReceived { msg_id: u.target_id, from: u.from_jid, emojis: u.emojis })
                },
                None => match parsed_correction(bare, e) {
                    Some(c) => if blocked {
                        nothing()
                    } else {
                        just(XmppEventView::CorrectionReceived { original_id: c.target_id, _from_jid: c.from_jid, new_body: c.new_body })
                    },
                    None => match parsed_retraction(bare, e) {
                        Some(r) => if blocked {
                            nothing()
                        } else {
                            just(XmppEventView::RetractionReceived { _origin_id: r.target_id, _from_jid: r.from_jid })
                        },
                        None => match first_child(e.children, "received"@, Some(NS_RECEIPTS@)) {
                            Some(rc) => match rc.attr("id"@) {
                                Some(id) => just(XmppEventView::MessageDelivered { id, from: bare }),
                                None => nothing(),
                            },
                            None => match first_child(e.children, "displayed"@, Some(NS_CHAT_MARKERS@)) {
                                Some(d) => match d.attr("id"@) {
                                    Some(id) => just(XmppEventView::MessageRead { id, from: bare }),
                                    None => nothing(),
                                },
                                None => delivery_outcome(e, blocking, ignore, flags),
                            },
                        },
                    },
                },
            },
        },
    }
}

/// The body child without a language tag.
fn find_plain_body(el: &Element) -> (r: Option<&Element>)
    ensures
        r matches Some(c) ==> first_such(el@.children, plain_body_pred()) == Some(c@),
        r is None ==> first_such(el@.children, plain_body_pred()) is None,
{
    let ghost p = plain_body_pred();
    let ghost cs = el@.children;
    proof {
        lemma_children_view(*el);
    }
    let mut i: usize = 0;
    while i < el.children.len()
        invariant
            i <= el.children.len(),
            cs == el@.children,
            p == plain_body_pred(),
            cs.len() == el.children@.len(),
            forall|j: int| 0 <= j < el.children@.len() ==> #[trigger] cs[j] == el.children@[j]@,
            forall|j: int| 0 <= j < i ==> !p(#[trigger] cs[j]),
        decreases el.children.len() - i,
    {
        let c = &el.children[i];
        let untagged = match c.attr("xml:lang") {
            None => true,
            Some(l) => str_eq(l, ""),
        };
        let b = str_eq(c.name(), "body") && str_eq(c.ns(), NS_CLIENT) && untagged;
        assert(c@ == cs[i as int]);
        assert(b == p(cs[i as int]));
        if b {
            proof {
                lemma_first_such_skip(cs, p, i as int);
                assert(cs.skip(i as int)[0] == cs[i as int]);
            }
            return Some(c);
        }
        i += 1;
    }
    proof {
        lemma_first_such_skip(cs, p, i as int);
        assert(cs.skip(i as int).len() == 0);
    }
    None
}

fn has(el: &Element, n: &str, ns: &str) -> (b: bool)
    ensures
        b == has_child(el@, n@, ns@),
{
    el.get_child(n, ns).is_some()
}

fn is_known_type(t: Option<&str>) -> (b: bool)
    ensures
        b == known_message_type(opt_view(t)),
{
    match t {
        None => true,
        Some(t) => str_eq(t, "chat") || str_eq(t, "error") || str_eq(t, "groupchat") || str_eq(t, "headline") || str_eq(t, "normal"),
    }
}

fn reason_text(x: &Element) -> (r: Option<String>)
    ensures
        opt_string(r) == reason_of(x@),
{
    match x.get_child_named("reason") {
        Some(r) => Some(r.text()),
        None => None,
    }
}

pub open spec fn opt_string(o: Option<String>) -> Option<Seq<char>> {
    match o {
        Some(s) => Some(s@),
        None => None,
    }
}

fn typing(el: &Element) -> (r: Vec<XmppEvent>)
    ensures
        views(r@) == typing_events(el@),
{
    let composing = has(el, "composing", NS_CHATSTATES);
    let paused = has(el, "paused", NS_CHATSTATES) || has(el, "inactive", NS_CHATSTATES);
    let mut r: Vec<XmppEvent> = Vec::new();
    if composing || paused {
        if let Some(f) = el.attr("from") {
            r.push(XmppEvent::PeerTyping { jid: bare_jid_of(f), composing });
        }
    }
    assert(views(r@) =~= typing_events(el@));
    r
}

/// Delivers a chat message (the last step of [`handle_message`]).
pub fn deliver_message(
    el: &Element,
    blocking_mgr: &BlockingManager,
    ignore_mgr: &IgnoreManager,
    outbox: &mut VecDeque<Element>,
    privacy_flags: u8,
) -> (events: Vec<XmppEvent>)
    ensures
        views(events@) == delivery_outcome(el@, *blocking_mgr, *ignore_mgr, privacy_flags).events,
        views(final(outbox)@) == views(old(outbox)@) + delivery_outcome(el@, *blocking_mgr, *ignore_mgr, privacy_flags).replies,
{
    let ghost out = delivery_outcome(el@, *blocking_mgr, *ignore_mgr, privacy_flags);
    if !(str_eq(el.name(), "message") && str_eq(el.ns(), NS_CLIENT) && is_known_type(el.attr("type"))) || el.attr_is(
        "type",
        "error",
    ) {
        assert(views(outbox@) =~= views(outbox@) + Seq::<ElementView>::empty());
        return Vec::new();
    }
    let sender = match message_sender(stanza_xml(el).as_str()) {
        Some(s) => s,
        None => {
            assert(views(outbox@) =~= views(outbox@) + Seq::<ElementView>::empty());
            return Vec::new();
        },
    };
    let mut events = typing(el);
    let body = match find_plain_body(el) {
        Some(b) => b.text(),
        None => {
            assert(views(outbox@) =~= views(outbox@) + Seq::<ElementView>::empty());
            return events;
        },
    };
    let from = match sender {
        Some(f) => f,
        None => {
            assert(views(outbox@) =~= views(outbox@) + Seq::<ElementView>::empty());
            return events;
        },
    };
    let bare = bare_jid_of(from.as_str());
    if blocking_mgr.is_blocked(bare.as_str()) {
        assert(views(outbox@) =~= views(outbox@) + Seq::<ElementView>::empty());
        return events;
    }
    let has_slash = find_char(&chars_of(from.as_str()), '/').is_some();
    if has_slash && ignore_mgr.is_ignored(bare.as_str(), bare.as_str()) {
        assert(views(outbox@) =~= views(outbox@) + Seq::<ElementView>::empty());
        return events;
    }
    let id = match el.attr("id") {
        Some(i) => i.to_owned(),
        None => String::new(),
    };
    let ghost before = outbox@;
    if privacy_flags & 1u8 != 0 && has(el, "request", NS_RECEIPTS) {
        if let (Some(orig_id), Some(reply_to)) = (el.attr("id"), el.attr("from")) {
            let receipt = Element::new("message", NS_CLIENT).with_attr("to", reply_to).with_child(
                Element::new("received", NS_RECEIPTS).with_attr("id", orig_id),
            );
            outbox.push_back(receipt);
            assert(views(outbox@) =~= views(before) + seq![receipt_reply(reply_to@, id@)]);
        }
    }
    assert(views(outbox@) =~= views(before) + out.replies);
    let ghost typing_before = events@;
    events.push(
        XmppEvent::MessageReceived(
            IncomingMessage { id, from, body, is_historical: false, is_encrypted: false, is_trusted: false },
        ),
    );
    assert(views(events@) =~= views(typing_before).push(XmppEventView::MessageReceived(live_message(id@, from@, body@))));
    events
}

pub(crate) fn one(ev: XmppEvent) -> (r: Vec<XmppEvent>)
    ensures
        views(r@) == seq![ev@],
{
    let mut r = Vec::new();
    r.push(ev);
    assert(views(r@) =~= seq![ev@]);
    r
}

/// What a `<message/>` stanza gives: the events reported, in order, and the
/// replies appended to `outbox`.
pub fn handle_message(
    el: &Element,
    blocking_mgr: &BlockingManager,
    ignore_mgr: &IgnoreManager,
    outbox: &mut VecDeque<Element>,
    privacy_flags: u8,
) -> (events: Vec<XmppEvent>)
    ensures
        views(events@) == message_outcome(el@, *blocking_mgr, *ignore_mgr, privacy_flags).events,
        views(final(outbox)@) == views(old(outbox)@) + message_outcome(el@, *blocking_mgr, *ignore_mgr, privacy_flags).replies,
{
    proof {
        assert(views(outbox@) =~= views(outbox@) + Seq::<ElementView>::empty());
    }
    let from = match el.attr("from") {
        Some(f) => f.to_owned(),
        None => String::new(),
    };
    let bare = bare_jid_of(from.as_str());
    if let Some(x) = el.get_child("x", NS_X_CONFERENCE) {
        return match x.attr("jid") {
            Some(room) => one(XmppEvent::RoomInvitationReceived { room_jid: room.to_owned(), from_jid: bare, reason: reason_text(x) }),
            None => Vec::new(),
        };
    }
    if let Some(x) = el.get_child("x", NS_MUC_USER) {
        return match x.get_child_named("invite") {
            Some(inv) => {
                let inviter = match inv.attr("from") {
                    Some(f) => f.to_owned(),
                    None => String::new(),
                };
                one(XmppEvent::RoomInvitationReceived { room_jid: bare, from_jid: inviter, reason: reason_text(inv) })
            },
            None => Vec::new(),
        };
    }
    let mutations = MutationManager::new();
    let blocked = blocking_mgr.is_blocked(bare.as_str());
    if let Some(update) = mutations.parse_reaction(bare.as_str(), el) {
        if blocked {
            return Vec::new();
        }
        let ev = XmppEvent::ReactionReceived { msg_id: update.target_id, from: update.from_jid, emojis: update.emojis };
        return one(ev);
    }
    if let Some(c) = mutations.parse_correction(bare.as_str(), el) {
        if blocked {
            return Vec::new();
        }
        return one(XmppEvent::CorrectionReceived { original_id: c.target_id, _from_jid: c.from_jid, new_body: c.new_body });
    }
    if let Some(r) = mutations.parse_retraction(bare.as_str(), el) {
        if blocked {
            return Vec::new();
        }
        return one(XmppEvent::RetractionReceived { _origin_id: r.target_id, _from_jid: r.from_jid });
    }
    if let Some(rc) = el.get_child("received", NS_RECEIPTS) {
        return match rc.attr("id") {
            Some(id) => one(XmppEvent::MessageDelivered { id: id.to_owned(), from: bare }),
            None => Vec::new(),
        };
    }
    if let Some(d) = el.get_child("displayed", NS_CHAT_MARKERS) {
        return match d.attr("id") {
            Some(id) => one(XmppEvent::MessageRead { id: id.to_owned(), from: bare }),
            None => Vec::new(),
        };
    }
    deliver_message(el, blocking_mgr, ignore_mgr, outbox, privacy_flags)
}

/// A message gives at most one typing notification, for its sender's bare
/// address, exactly when it has a sender and a chat state that is
/// composing, paused or inactive; the notification says the peer is
/// composing exactly when the message has a `<composing/>` state, so a
/// message with only `<paused/>` or `<inactive/>` says it is not.
pub proof fn law_typing_flag(e: ElementView)
    ensures
        typing_events(e).len() <= 1,
        (typing_events(e).len() == 1) <==> (e.attr("from"@) is Some && (has_child(e, "composing"@, NS_CHATSTATES@) || has_child(
            e,
            "paused"@,
            NS_CHATSTATES@,
        ) || has_child(e, "inactive"@, NS_CHATSTATES@))),
        typing_events(e).len() == 1 ==> typing_events(e)[0] == (XmppEventView::PeerTyping {
            jid: bare_jid(e.attr("from"@)->0),
            composing: has_child(e, "composing"@, NS_CHATSTATES@),
        }),
{
}

} // verus!
