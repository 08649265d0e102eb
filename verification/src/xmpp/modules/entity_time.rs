//! Entity time (XEP-0202): asking a contact for its time zone and caching the answer.
use vstd::prelude::*;
use crate::util::ext::{is_uuid_v4_text, new_uuid};
use crate::util::maps::StrMap;
use crate::util::strs::{chars_of, is_digit, str_eq, trim, trim_bounds};
use crate::util::xml::{Element, ElementView, elem};
use super::NS_CLIENT;

verus! {

broadcast use crate::util::xml::group_xml;

pub const NS_TIME: &'static str = "urn:xmpp:time";

/// The cached time information of a contact.
#[derive(Debug, Clone, PartialEq)]
pub struct EntityTime {
    pub jid: String,
    /// Offset from UTC in seconds.
    pub utc_offset_seconds: i32,
    /// Time-zone name, when the contact gave a non-empty one.
    pub tz_name: Option<String>,
}

pub struct EntityTimeView {
    pub jid: Seq<char>,
    pub utc_offset_seconds: i32,
    pub tz_name: Option<Seq<char>>,
}

impl View for EntityTime {
    type V = EntityTimeView;

    open spec fn view(&self) -> EntityTimeView {
        EntityTimeView {
            jid: self.jid@,
            utc_offset_seconds: self.utc_offset_seconds,
            tz_name: match self.tz_name {
                Some(t) => Some(t@),
                None => None,
            },
        }
    }
}

impl EntityTime {
    /// A copy with the same fields.
    pub fn copy(&self) -> (r: EntityTime)
        ensures
            r@ == self@,
    {
        EntityTime {
            jid: self.jid.clone(),
            utc_offset_seconds: self.utc_offset_seconds,
            tz_name: match &self.tz_name {
                Some(t) => Some(t.clone()),
                None => None,
            },
        }
    }
}

/// The value of an ASCII digit.
pub open spec fn dval(c: char) -> int {
    c as int - '0' as int
}

/// The sign, hours and minutes of a `(+|-)HH:MM` offset: after trimming,
/// exactly a sign, two digits, `:` and two digits.
pub open spec fn tzo_parts(s: Seq<char>) -> Option<(int, int, int)> {
    let t = trim(s);
    if t.len() == 6 && (t[0] == '-' || t[0] == '+') && is_digit(t[1]) && is_digit(t[2]) && t[3] == ':' && is_digit(t[4])
        && is_digit(t[5]) {
        Some((if t[0] == '-' { -1int } else { 1int }, dval(t[1]) * 10 + dval(t[2]), dval(t[4]) * 10 + dval(t[5])))
    } else {
        None
    }
}

/// The offset in seconds that a `<tzo>` text denotes.
pub open spec fn tzo_seconds(s: Seq<char>) -> Option<int> {
    match tzo_parts(s) {
        Some((sign, h, m)) => Some(if sign < 0 { -(h * 3600 + m * 60) } else { h * 3600 + m * 60 }),
        None => None,
    }
}

/// Parses a `<tzo>` value such as `-03:00` or `+05:30` into seconds: the
/// format is `(+|-)HH:MM`, and anything else is `None`.
pub fn parse_tzo(tzo: &str) -> (r: Option<i32>)
    ensures
        r matches Some(x) ==> tzo_seconds(tzo@) == Some(x as int),
        r is None ==> tzo_seconds(tzo@) is None,
{
    let v = chars_of(tzo);
    let (lo, hi) = trim_bounds(&v);
    let ghost t = trim(tzo@);
    assert(t =~= v@.subrange(lo as int, hi as int));
    if hi - lo != 6 {
        return None;
    }
    let c0 = v[lo];
    let h1 = v[lo + 1];
    let h2 = v[lo + 2];
    let c3 = v[lo + 3];
    let m1 = v[lo + 4];
    let m2 = v[lo + 5];
    assert(t[0] == c0 && t[1] == h1 && t[2] == h2 && t[3] == c3 && t[4] == m1 && t[5] == m2);
    if !((c0 == '-' || c0 == '+') && is_digit_char(h1) && is_digit_char(h2) && c3 == ':' && is_digit_char(m1) && is_digit_char(m2)) {
        return None;
    }
    let hours: i32 = digit_i32(h1) * 10 + digit_i32(h2);
    let minutes: i32 = digit_i32(m1) * 10 + digit_i32(m2);
    let total: i32 = hours * 3600 + minutes * 60;
    if c0 == '-' {
        Some(-total)
    } else {
        Some(total)
    }
}

fn is_digit_char(c: char) -> (b: bool)
    ensures
        b == is_digit(c),
{
    '0' <= c && c <= '9'
}

fn digit_i32(c: char) -> (d: i32)
    requires
        is_digit(c),
    ensures
        d == dval(c),
        0 <= d <= 9,
{
    ((c as u32) - ('0' as u32)) as i32
}

/// The `<iq type='get'>` asking `jid` for its time, under id `id`.
pub open spec fn time_request(id: Seq<char>, jid: Seq<char>) -> ElementView {
    elem("iq"@, NS_CLIENT@).with_attr("type"@, "get"@).with_attr("id"@, id).with_attr("to"@, jid).with_child(elem("time"@, NS_TIME@))
}

/// The `<tzo>` of a time result, when there is one.
pub open spec fn result_tzo(e: ElementView) -> Option<Seq<char>> {
    match e.child("time"@, NS_TIME@) {
        Some(t) => match t.child("tzo"@, NS_TIME@) {
            Some(z) => Some(z.text),
            None => None,
        },
        None => None,
    }
}

/// The non-empty `<tz>` of a time result.
pub open spec fn result_tz(e: ElementView) -> Option<Seq<char>> {
    match e.child("time"@, NS_TIME@) {
        Some(t) => match t.child("tz"@, NS_TIME@) {
            Some(z) => if z.text.len() > 0 { Some(z.text) } else { None },
            None => None,
        },
        None => None,
    }
}

/// Whether `e` is an `<iq type='result'>` with an id.
pub open spec fn is_result_iq(e: ElementView) -> bool {
    e.name == "iq"@ && e.attr("type"@) == Some("result"@) && e.attr("id"@) is Some
}

pub struct EntityTimeManager {
    cache: StrMap<EntityTime>,
    pending: StrMap<String>,
}

impl EntityTimeManager {
    /// The cached time of each contact.
    pub closed spec fn cache(&self) -> Map<Seq<char>, EntityTimeView> {
        self.cache.view().map_values(|t: EntityTime| t@)
    }

    /// The contact asked by each request that has not been answered.
    pub closed spec fn pending(&self) -> Map<Seq<char>, Seq<char>> {
        self.pending.view().map_values(|j: String| j@)
    }

    pub fn new() -> (r: Self)
        ensures
            r.cache() == Map::<Seq<char>, EntityTimeView>::empty(),
            r.pending() == Map::<Seq<char>, Seq<char>>::empty(),
    {
        let r = EntityTimeManager { cache: StrMap::new(), pending: StrMap::new() };
        assert(r.cache() =~= Map::<Seq<char>, EntityTimeView>::empty());
        assert(r.pending() =~= Map::<Seq<char>, Seq<char>>::empty());
        r
    }

    /// Builds the time request for `jid` under a fresh id, and records it as pending.
    pub fn build_request(&mut self, jid: &str) -> (r: (String, Element))
        ensures
            is_uuid_v4_text(r.0@),
            r.1@ == time_request(r.0@, jid@),
            final(self).pending() == old(self).pending().insert(r.0@, jid@),
            final(self).cache() == old(self).cache(),
    {
        let id = new_uuid();
        self.pending.insert(id.clone(), jid.to_owned());
        assert(self.pending() =~= old(self).pending().insert(id@, jid@));
        let iq = Element::new("iq", NS_CLIENT).with_attr("type", "get").with_attr("id", id.as_str()).with_attr(
            "to",
            jid,
        ).with_child(Element::new("time", NS_TIME));
        (id, iq)
    }

    /// Handles a time result: when it answers a pending request, the request
    /// is no longer pending, and when it carries a valid `<tzo>` the contact's
    /// time is cached and returned.
    pub fn on_result(&mut self, el: &Element) -> (r: Option<EntityTime>)
        ensures
            !is_result_iq(el@) || !old(self).pending().contains_key(el@.attr("id"@)->0) ==> r is None && final(self).cache()
                == old(self).cache() && final(self).pending() == old(self).pending(),
            is_result_iq(el@) && old(self).pending().contains_key(el@.attr("id"@)->0) ==> {
                let id = el@.attr("id"@)->0;
                let jid = old(self).pending()[id];
                &&& final(self).pending() == old(self).pending().remove(id)
                &&& (r is Some <==> (result_tzo(el@) matches Some(z) && tzo_seconds(z) is Some))
                &&& r matches Some(t) ==> {
                    &&& t@.jid == jid
                    &&& t@.utc_offset_seconds == tzo_seconds(result_tzo(el@)->0)->0
                    &&& t@.tz_name == result_tz(el@)
                    &&& final(self).cache() == old(self).cache().insert(jid, t@)
                }
                &&& r is None ==> final(self).cache() == old(self).cache()
            },
    {
        if !str_eq(el.name(), "iq") || !el.attr_is("type", "result") {
            return None;
        }
        let id = match el.attr("id") {
            Some(i) => i,
            None => return None,
        };
        let ghost old_pending = self.pending.view();
        let jid = match self.pending.remove(id) {
            Some(j) => j,
            None => return None,
        };
        assert(self.pending() =~= old(self).pending().remove(id@));
        let time_el = match el.get_child("time", NS_TIME) {
            Some(t) => t,
            None => return None,
        };
        let tzo_text = match time_el.get_child("tzo", NS_TIME) {
            Some(z) => z.text(),
            None => return None,
        };
        let tz_name = match time_el.get_child("tz", NS_TIME) {
            Some(z) => {
                let t = z.text();
                if t.as_str().is_empty() {
                    None
                } else {
                    Some(t)
                }
            },
            None => None,
        };
        let offset = match parse_tzo(tzo_text.as_str()) {
            Some(o) => o,
            None => return None,
        };
        let entry = EntityTime { jid: jid.clone(), utc_offset_seconds: offset, tz_name };
        self.cache.insert(jid, entry.copy());
        assert(self.cache() =~= old(self).cache().insert(entry@.jid, entry@));
        Some(entry)
    }

    /// The cached time of `jid`.
    pub fn get(&self, jid: &str) -> (r: Option<&EntityTime>)
        ensures
            r is None <==> !self.cache().contains_key(jid@),
            r matches Some(t) ==> self.cache()[jid@] == t@,
    {
        self.cache.get(jid)
    }
}

} // verus!
