//! The pure pieces of the session engine: stanza builders, carbon unwrapping,
//! server-field parsing and authentication-error classification.
use vstd::prelude::*;
use crate::util::ext::{is_uuid_v4_text, lowercase, new_uuid, to_lowercase};
use crate::util::strs::{before_first, before_first_char, chars_of, find_char, first_index, push_char, seq_contains, string_of_range, trim, trim_bounds, vec_contains};
use crate::util::xml::{Element, ElementView, elem};
use crate::xmpp::connection::{host_port, parse_host_port as parse_host_port_untrimmed};
use crate::xmpp::handlers::{NS_CHATSTATES, NS_CHAT_MARKERS, NS_RECEIPTS};
use crate::xmpp::modules::{NS_CLIENT, NS_FORWARD, NS_MAM};
use crate::xmpp::modules::disco::{CapsView, DiscoManager, NS_CAPS};

verus! {

broadcast use crate::util::xml::group_xml;

pub const NS_CARBONS: &'static str = "urn:xmpp:carbons:2";
pub const NS_MODERATION: &'static str = "urn:xmpp:message-moderate:0";
pub const NS_RETRACT: &'static str = "urn:xmpp:message-retract:1";
pub const NS_FASTEN: &'static str = "urn:xmpp:fasten:0";
pub const NS_ROSTER: &'static str = "jabber:iq:roster";
pub const NS_PRIVATE: &'static str = "jabber:iq:private";
pub const NS_BOOKMARKS: &'static str = "storage:bookmarks";

/// The forwarded `<message>` of a carbon copy in direction `direction`
/// (`sent` or `received`), when `el` is one.
pub open spec fn carbon_of(el: ElementView, direction: Seq<char>) -> Option<ElementView> {
    match el.child(direction, NS_CARBONS@) {
        None => None,
        Some(c) => match c.child("forwarded"@, NS_FORWARD@) {
            None => None,
            Some(f) => f.child_named("message"@),
        },
    }
}

/// Unwraps a carbon copy (XEP-0280) of the given direction.
pub fn extract_carbon(el: &Element, direction: &str) -> (r: Option<Element>)
    ensures
        r is None <==> carbon_of(el@, direction@) is None,
        r matches Some(m) ==> m@ == carbon_of(el@, direction@)->0,
{
    let carbon = match el.get_child(direction, NS_CARBONS) {
        Some(c) => c,
        None => return None,
    };
    let forwarded = match carbon.get_child("forwarded", NS_FORWARD) {
        Some(f) => f,
        None => return None,
    };
    match forwarded.get_child_named("message") {
        Some(m) => Some(m.duplicate()),
        None => None,
    }
}

/// `<iq type='get' id=ID><query xmlns='jabber:iq:roster'/></iq>`.
pub open spec fn roster_get(id: Seq<char>) -> ElementView {
    elem("iq"@, NS_CLIENT@).with_attr("type"@, "get"@).with_attr("id"@, id).with_child(elem("query"@, NS_ROSTER@))
}

/// The roster request, under a fresh id.
pub fn make_roster_get() -> (r: Element)
    ensures
        exists|id: Seq<char>| is_uuid_v4_text(id) && r@ == roster_get(id),
{
    let id = new_uuid();
    Element::new("iq", NS_CLIENT).with_attr("type", "get").with_attr("id", id.as_str()).with_child(
        Element::new("query", NS_ROSTER),
    )
}

/// `<iq type='set' id=ID><enable xmlns='urn:xmpp:carbons:2'/></iq>`.
pub open spec fn carbons_enable(id: Seq<char>) -> ElementView {
    elem("iq"@, NS_CLIENT@).with_attr("type"@, "set"@).with_attr("id"@, id).with_child(elem("enable"@, NS_CARBONS@))
}

/// The request that turns carbons on, under a fresh id.
pub fn make_carbons_enable() -> (r: Element)
    ensures
        exists|id: Seq<char>| is_uuid_v4_text(id) && r@ == carbons_enable(id),
{
    let id = new_uuid();
    Element::new("iq", NS_CLIENT).with_attr("type", "set").with_attr("id", id.as_str()).with_child(
        Element::new("enable", NS_CARBONS),
    )
}

/// A chat message with a delivery-receipt request.
pub open spec fn chat_message(to: Seq<char>, body: Seq<char>, id: Seq<char>) -> ElementView {
    elem("message"@, NS_CLIENT@)
        .with_attr("to"@, to)
        .with_attr("id"@, id)
        .with_attr("type"@, "chat"@)
        .with_child(elem("body"@, NS_CLIENT@).with_text(body))
        .with_child(elem("request"@, NS_RECEIPTS@))
}

/// A chat message to `to` with `body` and id `id`, requesting a receipt (XEP-0184).
pub fn make_message(to: &str, body: &str, id: &str) -> (r: Element)
    ensures
        r@ == chat_message(to@, body@, id@),
{
    Element::new("message", NS_CLIENT)
        .with_attr("to", to)
        .with_attr("id", id)
        .with_attr("type", "chat")
        .with_child(Element::new("body", NS_CLIENT).with_text(body))
        .with_child(Element::new("request", NS_RECEIPTS))
}

/// A chat-state notification (XEP-0085): `composing` or `paused`.
pub open spec fn chat_state_message(to: Seq<char>, composing: bool) -> ElementView {
    elem("message"@, NS_CLIENT@).with_attr("type"@, "chat"@).with_attr("to"@, to).with_child(
        elem(if composing { "composing"@ } else { "paused"@ }, NS_CHATSTATES@),
    )
}

pub fn make_chat_state_message(to: &str, composing: bool) -> (r: Element)
    ensures
        r@ == chat_state_message(to@, composing),
{
    let state_name = if composing { "composing" } else { "paused" };
    Element::new("message", NS_CLIENT).with_attr("type", "chat").with_attr("to", to).with_child(
        Element::new(state_name, NS_CHATSTATES),
    )
}

/// A roster set adding `jid`.
pub open spec fn roster_set(jid: Seq<char>, id: Seq<char>) -> ElementView {
    elem("iq"@, NS_CLIENT@).with_attr("type"@, "set"@).with_attr("id"@, id).with_child(
        elem("query"@, NS_ROSTER@).with_child(elem("item"@, NS_ROSTER@).with_attr("jid"@, jid)),
    )
}

/// Adds `jid` to the roster, under a fresh id.
pub fn make_roster_set(jid: &str) -> (r: Element)
    ensures
        exists|id: Seq<char>| is_uuid_v4_text(id) && r@ == roster_set(jid@, id),
{
    let id = new_uuid();
    let item = Element::new("item", NS_ROSTER).with_attr("jid", jid);
    let query = Element::new("query", NS_ROSTER).with_child(item);
    let mut iq = Element::new("iq", NS_CLIENT).with_attr("type", "set").with_attr("id", id.as_str());
    iq.push_child(query);
    iq
}

/// A moderation request (XEP-0425) retracting message `target_id` in `room_jid`.
pub open spec fn moderation_message(room_jid: Seq<char>, target_id: Seq<char>, reason: Option<Seq<char>>, id: Seq<char>) -> ElementView {
    let m0 = elem("moderated"@, NS_MODERATION@).with_child(elem("retract"@, NS_RETRACT@));
    let m = match reason {
        Some(r) => m0.with_child(elem("reason"@, NS_MODERATION@).with_text(r)),
        None => m0,
    };
    elem("message"@, NS_CLIENT@)
        .with_attr("to"@, room_jid)
        .with_attr("type"@, "groupchat"@)
        .with_attr("id"@, id)
        .with_child(elem("apply-to"@, NS_FASTEN@).with_attr("id"@, target_id).with_child(m))
}

pub open spec fn opt_str(o: Option<&str>) -> Option<Seq<char>> {
    match o {
        Some(s) => Some(s@),
        None => None,
    }
}

pub fn make_moderation_message(room_jid: &str, target_id: &str, reason: Option<&str>) -> (r: Element)
    ensures
        exists|id: Seq<char>| is_uuid_v4_text(id) && r@ == moderation_message(room_jid@, target_id@, opt_str(reason), id),
{
    let mut moderated = Element::new("moderated", NS_MODERATION).with_child(Element::new("retract", NS_RETRACT));
    if let Some(r) = reason {
        moderated = moderated.with_child(Element::new("reason", NS_MODERATION).with_text(r));
    }
    let apply_to = Element::new("apply-to", NS_FASTEN).with_attr("id", target_id).with_child(moderated);
    let id = new_uuid();
    Element::new("message", NS_CLIENT)
        .with_attr("to", room_jid)
        .with_attr("type", "groupchat")
        .with_attr("id", id.as_str())
        .with_child(apply_to)
}

/// The bookmarks request (XEP-0048), with the fixed id `bookmarks-get`.
pub open spec fn bookmarks_get() -> ElementView {
    elem("iq"@, NS_CLIENT@).with_attr("type"@, "get"@).with_attr("id"@, "bookmarks-get"@).with_child(
        elem("query"@, NS_PRIVATE@).with_child(elem("storage"@, NS_BOOKMARKS@)),
    )
}

pub fn make_bookmarks_get_iq() -> (r: Element)
    ensures
        r@ == bookmarks_get(),
{
    let storage = Element::new("storage", NS_BOOKMARKS);
    let query = Element::new("query", NS_PRIVATE).with_child(storage);
    Element::new("iq", NS_CLIENT).with_attr("type", "get").with_attr("id", "bookmarks-get").with_child(query)
}

/// A displayed marker (XEP-0333) for message `id`.
pub open spec fn displayed_message(to: Seq<char>, id: Seq<char>) -> ElementView {
    elem("message"@, NS_CLIENT@).with_attr("to"@, to).with_child(elem("displayed"@, NS_CHAT_MARKERS@).with_attr("id"@, id))
}

pub fn make_displayed_message(to: &str, id: &str) -> (r: Element)
    ensures
        r@ == displayed_message(to@, id@),
{
    Element::new("message", NS_CLIENT).with_attr("to", to).with_child(
        Element::new("displayed", NS_CHAT_MARKERS).with_attr("id", id),
    )
}

/// The archiving preferences request.
pub open spec fn mam_prefs_get(id: Seq<char>) -> ElementView {
    elem("iq"@, NS_CLIENT@).with_attr("type"@, "get"@).with_attr("id"@, id).with_child(elem("prefs"@, NS_MAM@))
}

pub fn make_mam_prefs_get_iq() -> (r: Element)
    ensures
        exists|id: Seq<char>| is_uuid_v4_text(id) && r@ == mam_prefs_get(id),
{
    let id = new_uuid();
    Element::new("iq", NS_CLIENT).with_attr("type", "get").with_attr("id", id.as_str()).with_child(
        Element::new("prefs", NS_MAM),
    )
}

/// Setting the default archiving mode.
pub open spec fn mam_prefs_set(default_mode: Seq<char>, id: Seq<char>) -> ElementView {
    elem("iq"@, NS_CLIENT@).with_attr("type"@, "set"@).with_attr("id"@, id).with_child(
        elem("prefs"@, NS_MAM@).with_attr("default"@, default_mode),
    )
}

pub fn make_mam_prefs_set(default_mode: &str) -> (r: Element)
    ensures
        exists|id: Seq<char>| is_uuid_v4_text(id) && r@ == mam_prefs_set(default_mode@, id),
{
    let id = new_uuid();
    Element::new("iq", NS_CLIENT).with_attr("type", "set").with_attr("id", id.as_str()).with_child(
        Element::new("prefs", NS_MAM).with_attr("default", default_mode),
    )
}

/// The server field split into host and port, after trimming white space.
pub fn parse_host_port(input: &str, default_port: u16) -> (r: (String, u16))
    ensures
        r.0@ == host_port(trim(input@), default_port).0,
        r.1 == host_port(trim(input@), default_port).1,
{
    let v = chars_of(input);
    let (lo, hi) = trim_bounds(&v);
    let t = string_of_range(&v, lo, hi);
    parse_host_port_untrimmed(t.as_str(), default_port)
}

/// Whether an error text reports an authentication failure: it mentions,
/// ignoring case, `not-authorized`, `authentication`, `credentials` or `sasl`.
pub open spec fn auth_error(err: Seq<char>) -> bool {
    let l = lowercase(err);
    seq_contains(l, "not-authorized"@) || seq_contains(l, "authentication"@) || seq_contains(l, "credentials"@)
        || seq_contains(l, "sasl"@)
}

/// Whether a connection error is an authentication failure, so that retrying
/// with the same credentials would not succeed.
pub fn is_auth_error(err: &str) -> (r: bool)
    ensures
        r == auth_error(err@),
{
    let lower = chars_of(to_lowercase(err).as_str());
    vec_contains(&lower, &chars_of("not-authorized")) || vec_contains(&lower, &chars_of("authentication"))
        || vec_contains(&lower, &chars_of("credentials")) || vec_contains(&lower, &chars_of("sasl"))
}

/// Our presence announcing capabilities `caps`, with the status text when there is one.
pub open spec fn presence_with_caps(caps: CapsView, status: Option<Seq<char>>) -> ElementView {
    let p = elem("presence"@, NS_CLIENT@).with_child(
        elem("c"@, NS_CAPS@).with_attr("hash"@, caps.hash).with_attr("node"@, caps.node).with_attr("ver"@, caps.ver),
    );
    match status {
        Some(msg) => p.with_child(elem("status"@, NS_CLIENT@).with_text(msg)),
        None => p,
    }
}

/// Our presence with our capabilities (XEP-0115) and status text.
pub fn make_presence_with_caps(disco_mgr: &DiscoManager, status_message: Option<&str>) -> (r: Element)
    ensures
        r@ == presence_with_caps(disco_mgr.own_caps(), opt_str(status_message)),
{
    let mut raw = Element::new("presence", NS_CLIENT);
    raw.push_child(disco_mgr.build_caps_element());
    if let Some(msg) = status_message {
        raw.push_child(Element::new("status", NS_CLIENT).with_text(msg));
    }
    raw
}

/// The normalized text of the JID `s`, or nothing where `s` is not a valid
/// JID, as the `jid` crate parses and prints it.
pub uninterp spec fn parsed_jid(s: Seq<char>) -> Option<Seq<char>>;

/// `jid::Jid::from_str`, then its `Display`: the normalized JID, or `None`
/// on a parse error.
#[verifier::external_body]
pub(crate) fn normalized_jid(s: &str) -> (r: Option<String>)
    ensures
        match r {
            Some(j) => parsed_jid(s@) == Some(j@),
            None => parsed_jid(s@) is None,
        },
{
    s.parse::<xmpp_parsers::jid::Jid>().ok().map(|j| j.to_string())
}

/// The domain part of an account JID: what lies between its first `@`
/// and the next one (`jid.split('@').nth(1)`).
pub open spec fn account_domain(jid: Seq<char>) -> Option<Seq<char>> {
    match first_index(jid, '@') {
        Some(i) => Some(before_first(jid.skip(i + 1), '@')),
        None => None,
    }
}

pub fn account_domain_of(jid: &str) -> (r: Option<String>)
    ensures
        match r {
            Some(d) => account_domain(jid@) == Some(d@),
            None => account_domain(jid@) is None,
        },
{
    let v = chars_of(jid);
    match find_char(&v, '@') {
        Some(i) => {
            let rest = string_of_range(&v, i + 1, v.len());
            assert(v@.subrange(i + 1, v@.len() as int) =~= v@.skip(i + 1));
            Some(before_first_char(rest.as_str(), '@'))
        },
        None => None,
    }
}

pub open spec fn hex_digit(n: nat) -> char {
    if n < 10 {
        (('0' as nat) + n) as char
    } else {
        (('a' as nat) + n - 10) as char
    }
}

/// Lower-case hexadecimal text of `b`, two digits per byte.
pub open spec fn hex_text(b: Seq<u8>) -> Seq<char>
    decreases b.len(),
{
    if b.len() == 0 {
        Seq::empty()
    } else {
        hex_text(b.drop_last()).push(hex_digit((b.last() / 16) as nat)).push(hex_digit((b.last() % 16) as nat))
    }
}

fn hex_digit_exec(n: u8) -> (c: char)
    requires
        n < 16,
    ensures
        c == hex_digit(n as nat),
{
    if n < 10 {
        ((48u8 + n) as char)
    } else {
        ((97u8 + n - 10) as char)
    }
}

/// The lower-case hexadecimal text of `b`.
pub fn hex_lower(b: &[u8]) -> (r: String)
    ensures
        r@ == hex_text(b@),
{
    let mut r = String::new();
    let mut i: usize = 0;
    while i < b.len()
        invariant
            i <= b.len(),
            r@ == hex_text(b@.take(i as int)),
        decreases b.len() - i,
    {
        let x = b[i];
        proof {
            assert(b@.take(i + 1).drop_last() =~= b@.take(i as int));
            assert(b@.take(i + 1).last() == x);
        }
        push_char(&mut r, hex_digit_exec(x / 16));
        push_char(&mut r, hex_digit_exec(x % 16));
        i += 1;
    }
    assert(b@.take(i as int) =~= b@);
    r
}

} // verus!
