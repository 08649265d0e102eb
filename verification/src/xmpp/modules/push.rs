//! Push notifications (XEP-0357): enabling and disabling push services and
//! tracking which subscriptions are active.
use vstd::prelude::*;
use crate::util::ext::{is_uuid_v4_text, new_uuid};
use crate::util::maps::StrMap;
use crate::util::strs::push_char;
use crate::util::xml::{Element, ElementView, elem};
use super::NS_CLIENT;

verus! {

broadcast use crate::util::xml::group_xml;

pub const NS_PUSH: &'static str = "urn:xmpp:push:0";

/// A push subscription of this device at one service.
#[derive(Debug, Clone, PartialEq)]
pub struct PushSubscription {
    pub service_jid: String,
    pub node: String,
    pub enabled: bool,
}

pub struct PushSubscriptionView {
    pub service_jid: Seq<char>,
    pub node: Seq<char>,
    pub enabled: bool,
}

impl View for PushSubscription {
    type V = PushSubscriptionView;

    open spec fn view(&self) -> PushSubscriptionView {
        PushSubscriptionView { service_jid: self.service_jid@, node: self.node@, enabled: self.enabled }
    }
}

/// The lower-case hexadecimal digit of `d`.
pub open spec fn hex_digit(d: int) -> char {
    if d < 10 {
        ((d + 48) as u8) as char
    } else {
        ((d + 87) as u8) as char
    }
}

/// Whether `s` is `n` lower-case hexadecimal digits.
pub open spec fn is_hex_text(s: Seq<char>, n: nat) -> bool {
    s.len() == n && forall|i: int| 0 <= i < n ==> ('0' <= #[trigger] s[i] <= '9') || ('a' <= s[i] <= 'f')
}

/// The seconds-fraction of the system clock in nanoseconds
/// (`SystemTime::now().duration_since(UNIX_EPOCH)` then `subsec_nanos`),
/// or `None` when the clock is set before 1970. It depends on the time;
/// only its range is stated.
#[verifier::external_body]
fn clock_subsec_nanos() -> (r: Option<u32>)
    ensures
        r matches Some(n) ==> n < 1_000_000_000,
{
    match std::time::SystemTime::now().duration_since(std::time::UNIX_EPOCH) {
        Ok(d) => Some(d.subsec_nanos()),
        Err(_) => None,
    }
}

/// The byte derived from a reading of `n` nanoseconds: its low byte, times
/// 17, plus 42, wrapping.
pub open spec fn nanos_byte(n: u32) -> u8 {
    (((n % 256) * 17 + 42) % 256) as u8
}

fn byte_of_nanos(n: u32) -> (r: u8)
    ensures
        r == nanos_byte(n),
{
    let low: u32 = n % 256;
    ((low * 17 + 42) % 256) as u8
}

/// A byte derived from the clock: the byte of the seconds-fraction in
/// nanoseconds that the clock gave. A clock set before 1970 counts as zero
/// nanoseconds. Since 17 is odd, every byte is the byte of some reading.
fn clock_byte() -> (r: u8)
    ensures
        exists|n: u32| n < 1_000_000_000 && r == #[trigger] nanos_byte(n),
{
    let n: u32 = match clock_subsec_nanos() {
        Some(n) => n,
        None => 0,
    };
    byte_of_nanos(n)
}

fn hex_char(d: u8) -> (c: char)
    requires
        d < 16,
    ensures
        c == hex_digit(d as int),
        ('0' <= c <= '9') || ('a' <= c <= 'f'),
{
    if d < 10 {
        (d + 48) as char
    } else {
        (d + 87) as char
    }
}

/// Sixteen clock-derived bytes in hexadecimal.
fn make_secret() -> (s: String)
    ensures
        is_hex_text(s@, 32),
{
    let mut s = String::new();
    let mut i: usize = 0;
    while i < 16
        invariant
            i <= 16,
            is_hex_text(s@, 2 * i as nat),
        decreases 16 - i,
    {
        let b = clock_byte();
        let ghost before = s@;
        push_char(&mut s, hex_char(b / 16));
        push_char(&mut s, hex_char(b % 16));
        assert(s@ =~= before.push(hex_digit((b / 16) as int)).push(hex_digit((b % 16) as int)));
        i += 1;
    }
    s
}

/// The `<iq type='set'>` with id `id` around `payload`.
pub open spec fn set_iq(id: Seq<char>, payload: ElementView) -> ElementView {
    elem("iq"@, NS_CLIENT@).with_attr("type"@, "set"@).with_attr("id"@, id).with_child(payload)
}

/// The `<enable>` request for `jid` with device node `node` and secret `secret`.
pub open spec fn enable_payload(jid: Seq<char>, node: Seq<char>, secret: Seq<char>) -> ElementView {
    elem("enable"@, NS_PUSH@).with_attr("jid"@, jid).with_attr("node"@, node).with_child(elem("secret"@, NS_PUSH@).with_text(secret))
}

/// The `<disable>` request for `jid` and `node`.
pub open spec fn disable_payload(jid: Seq<char>, node: Seq<char>) -> ElementView {
    elem("disable"@, NS_PUSH@).with_attr("jid"@, jid).with_attr("node"@, node)
}

/// An enable request awaiting its answer: the service it went to and the
/// node it named.
struct PendingEnable {
    service_jid: String,
    node: String,
}

pub struct PushManager {
    subscriptions: StrMap<PushSubscription>,
    pending_enable: StrMap<PendingEnable>,
}

impl PushManager {
    /// The subscription at each service.
    pub closed spec fn subscriptions(&self) -> Map<Seq<char>, PushSubscriptionView> {
        self.subscriptions.view().map_values(|s: PushSubscription| s@)
    }

    /// The service of each enable request that has not been answered.
    pub closed spec fn pending_enable(&self) -> Map<Seq<char>, Seq<char>> {
        self.pending_enable.view().map_values(|p: PendingEnable| p.service_jid@)
    }

    /// The node named by each enable request that has not been answered.
    pub closed spec fn pending_nodes(&self) -> Map<Seq<char>, Seq<char>> {
        self.pending_enable.view().map_values(|p: PendingEnable| p.node@)
    }

    /// The enabled subscriptions, in the order their services were first stored.
    pub closed spec fn active(&self) -> Seq<PushSubscriptionView> {
        active_of(self.subscriptions.entries())
    }

    /// Each subscription is stored under its own service.
    pub open spec fn keyed(&self) -> bool {
        keyed_map(self.subscriptions())
    }

    pub fn new() -> (r: Self)
        ensures
            r.subscriptions() == Map::<Seq<char>, PushSubscriptionView>::empty(),
            r.pending_enable() == Map::<Seq<char>, Seq<char>>::empty(),
            r.pending_nodes() == Map::<Seq<char>, Seq<char>>::empty(),
            r.active() == Seq::<PushSubscriptionView>::empty(),
            r.keyed(),
    {
        let r = PushManager { subscriptions: StrMap::new(), pending_enable: StrMap::new() };
        assert(r.subscriptions() =~= Map::<Seq<char>, PushSubscriptionView>::empty());
        assert(r.pending_enable() =~= Map::<Seq<char>, Seq<char>>::empty());
        assert(r.pending_nodes() =~= Map::<Seq<char>, Seq<char>>::empty());
        r
    }

    /// The request enabling push at `service_jid`, under a fresh id with a
    /// fresh device node and a 32-digit hexadecimal secret; recorded as pending.
    pub fn build_enable_iq(&mut self, service_jid: &str) -> (r: Element)
        ensures
            old(self).keyed() ==> final(self).keyed(),
            exists|id: Seq<char>, node: Seq<char>, secret: Seq<char>| {
                &&& is_uuid_v4_text(id)
                &&& is_uuid_v4_text(node)
                &&& is_hex_text(secret, 32)
                &&& r@ == set_iq(id, enable_payload(service_jid@, node, secret))
                &&& final(self).pending_enable() == old(self).pending_enable().insert(id, service_jid@)
                &&& final(self).pending_nodes() == old(self).pending_nodes().insert(id, node)
            },
            final(self).subscriptions() == old(self).subscriptions(),
    {
        let iq_id = new_uuid();
        let node = new_uuid();
        let secret = make_secret();
        let enable = Element::new("enable", NS_PUSH).with_attr("jid", service_jid).with_attr("node", node.as_str()).with_child(
            Element::new("secret", NS_PUSH).with_text(secret.as_str()),
        );
        let iq = Element::new("iq", NS_CLIENT).with_attr("type", "set").with_attr("id", iq_id.as_str()).with_child(enable);
        self.pending_enable.insert(iq_id.clone(), PendingEnable { service_jid: service_jid.to_owned(), node: node.clone() });
        assert(self.pending_enable() =~= old(self).pending_enable().insert(iq_id@, service_jid@));
        assert(self.pending_nodes() =~= old(self).pending_nodes().insert(iq_id@, node@));
        assert(iq@ == set_iq(iq_id@, enable_payload(service_jid@, node@, secret@)));
        iq
    }

    /// The request disabling push at `service_jid`, naming the node of its
    /// subscription (a fresh one when there is none), under a fresh id.
    pub fn build_disable_iq(&mut self, service_jid: &str) -> (r: Element)
        ensures
            old(self).keyed() ==> final(self).keyed(),
            exists|id: Seq<char>, node: Seq<char>| {
                &&& is_uuid_v4_text(id)
                &&& (old(self).subscriptions().contains_key(service_jid@) ==> node == old(self).subscriptions()[service_jid@].node)
                &&& (!old(self).subscriptions().contains_key(service_jid@) ==> is_uuid_v4_text(node))
                &&& r@ == set_iq(id, disable_payload(service_jid@, node))
            },
            final(self).subscriptions() == old(self).subscriptions(),
            final(self).pending_enable() == old(self).pending_enable(),
            final(self).pending_nodes() == old(self).pending_nodes(),
    {
        let node = match self.subscriptions.get(service_jid) {
            Some(s) => s.node.clone(),
            None => new_uuid(),
        };
        let disable = Element::new("disable", NS_PUSH).with_attr("jid", service_jid).with_attr("node", node.as_str());
        let id = new_uuid();
        let iq = Element::new("iq", NS_CLIENT).with_attr("type", "set").with_attr("id", id.as_str()).with_child(disable);
        assert(iq@ == set_iq(id@, disable_payload(service_jid@, node@)));
        iq
    }

    /// The request disabling every subscription, under a fresh id.
    pub fn build_disable_all_iq(&self) -> (r: Element)
        ensures
            exists|id: Seq<char>| is_uuid_v4_text(id) && r@ == set_iq(id, elem("disable"@, NS_PUSH@)),
    {
        let id = new_uuid();
        let iq = Element::new("iq", NS_CLIENT).with_attr("type", "set").with_attr("id", id.as_str()).with_child(
            Element::new("disable", NS_PUSH),
        );
        assert(iq@ == set_iq(id@, elem("disable"@, NS_PUSH@)));
        iq
    }

    /// Reads the result of an enable request: its service gets an enabled
    /// subscription under the node the request named, returned with the
    /// service.
    pub fn on_enable_result(&mut self, el: &Element) -> (r: Option<(String, String)>)
        ensures
            old(self).keyed() ==> final(self).keyed(),
            r is Some <==> (el@.attr("type"@) == Some("result"@) && el@.attr("id"@) is Some && old(self).pending_enable().contains_key(
                el@.attr("id"@)->0,
            )),
            r is None ==> final(self).subscriptions() == old(self).subscriptions() && final(self).pending_enable() == old(
                self,
            ).pending_enable() && final(self).pending_nodes() == old(self).pending_nodes(),
            r matches Some(p) ==> {
                let id = el@.attr("id"@)->0;
                &&& p.0@ == old(self).pending_enable()[id]
                &&& p.1@ == old(self).pending_nodes()[id]
                &&& final(self).pending_enable() == old(self).pending_enable().remove(id)
                &&& final(self).pending_nodes() == old(self).pending_nodes().remove(id)
                &&& final(self).subscriptions() == old(self).subscriptions().insert(
                    p.0@,
                    PushSubscriptionView { service_jid: p.0@, node: p.1@, enabled: true },
                )
            },
    {
        if !el.attr_is("type", "result") {
            return None;
        }
        let iq_id = match el.attr("id") {
            Some(i) => i,
            None => return None,
        };
        let pending = match self.pending_enable.remove(iq_id) {
            Some(p) => p,
            None => {
                assert(self.pending_enable() =~= old(self).pending_enable());
                return None;
            },
        };
        assert(self.pending_enable() =~= old(self).pending_enable().remove(iq_id@));
        assert(self.pending_nodes() =~= old(self).pending_nodes().remove(iq_id@));
        let PendingEnable { service_jid, node } = pending;
        let sub = PushSubscription { service_jid: service_jid.clone(), node: node.clone(), enabled: true };
        self.subscriptions.insert(service_jid.clone(), sub);
        assert(self.subscriptions() =~= old(self).subscriptions().insert(
            service_jid@,
            PushSubscriptionView { service_jid: service_jid@, node: node@, enabled: true },
        ));
        Some((service_jid, node))
    }

    /// Reads an error answering an enable request: the request stops being
    /// pending and its service is returned.
    pub fn on_enable_error(&mut self, el: &Element) -> (r: Option<String>)
        ensures
            old(self).keyed() ==> final(self).keyed(),
            final(self).subscriptions() == old(self).subscriptions(),
            el@.attr("type"@) == Some("error"@) && el@.attr("id"@) is Some ==> {
                let id = el@.attr("id"@)->0;
                &&& final(self).pending_enable() == old(self).pending_enable().remove(id)
                &&& final(self).pending_nodes() == old(self).pending_nodes().remove(id)
                &&& (r is Some <==> old(self).pending_enable().contains_key(id))
                &&& r matches Some(j) ==> j@ == old(self).pending_enable()[id]
            },
            !(el@.attr("type"@) == Some("error"@) && el@.attr("id"@) is Some) ==> r is None && final(self).pending_enable()
                == old(self).pending_enable(),
    {
        if !el.attr_is("type", "error") {
            return None;
        }
        let iq_id = match el.attr("id") {
            Some(i) => i,
            None => return None,
        };
        let r = self.pending_enable.remove(iq_id);
        assert(self.pending_enable() =~= old(self).pending_enable().remove(iq_id@));
        assert(self.pending_nodes() =~= old(self).pending_nodes().remove(iq_id@));
        match r {
            Some(p) => Some(p.service_jid),
            None => None,
        }
    }

    /// Reads the result of a disable request: the subscription of the service
    /// its `<disable>` names, when there is one, is no longer enabled.
    pub fn on_disable_result(&mut self, el: &Element) -> (r: Option<String>)
        ensures
            old(self).keyed() ==> final(self).keyed(),
            final(self).pending_enable() == old(self).pending_enable(),
            final(self).pending_nodes() == old(self).pending_nodes(),
            r is Some <==> (el@.attr("type"@) == Some("result"@) && (el@.child("disable"@, NS_PUSH@) matches Some(d) && d.attr(
                "jid"@,
            ) is Some)),
            r is None ==> final(self).subscriptions() == old(self).subscriptions(),
            r matches Some(j) ==> {
                &&& j@ == el@.child("disable"@, NS_PUSH@)->0.attr("jid"@)->0
                &&& old(self).subscriptions().contains_key(j@) ==> final(self).subscriptions() == old(self).subscriptions().insert(
                    j@,
                    PushSubscriptionView { enabled: false, ..old(self).subscriptions()[j@] },
                )
                &&& !old(self).subscriptions().contains_key(j@) ==> final(self).subscriptions() == old(self).subscriptions()
            },
    {
        if !el.attr_is("type", "result") {
            return None;
        }
        let disable = match el.get_child("disable", NS_PUSH) {
            Some(d) => d,
            None => return None,
        };
        let jid = match disable.attr("jid") {
            Some(j) => j,
            None => return None,
        };
        let ghost old_subs = self.subscriptions.view();
        match self.subscriptions.remove(jid) {
            Some(mut sub) => {
                sub.enabled = false;
                self.subscriptions.insert(jid.to_owned(), sub);
                assert(self.subscriptions() =~= old(self).subscriptions().insert(
                    jid@,
                    PushSubscriptionView { enabled: false, ..old(self).subscriptions()[jid@] },
                ));
            },
            None => {
                assert(self.subscriptions() =~= old(self).subscriptions());
            },
        }
        Some(jid.to_owned())
    }

    /// Whether the enable request `iq_id` awaits its answer.
    pub fn is_enable_pending(&self, iq_id: &str) -> (b: bool)
        ensures
            b == self.pending_enable().contains_key(iq_id@),
    {
        self.pending_enable.contains_key(iq_id)
    }

    proof fn lemma_enabled_iff_active(&self, j: Seq<char>)
        requires
            self.keyed(),
            forall|k: Seq<char>| #[trigger] self.subscriptions.view().contains_key(k) <==> exists|i: int|
                0 <= i < self.subscriptions.entries().len() && self.subscriptions.entries()[i].0@ == k,
            forall|i: int| 0 <= i < self.subscriptions.entries().len() ==> #[trigger] self.subscriptions.view()[self.subscriptions.entries()[i].0@]
                == self.subscriptions.entries()[i].1,
        ensures
            (self.subscriptions().contains_key(j) && self.subscriptions()[j].enabled) <==> exists|a: int|
                0 <= a < self.active().len() && #[trigger] self.active()[a].service_jid == j,
    {
        let es = self.subscriptions.entries();
        lemma_active_of(es);
        if self.subscriptions().contains_key(j) && self.subscriptions()[j].enabled {
            assert(self.subscriptions.view().contains_key(j));
            let i = choose|i: int| 0 <= i < es.len() && es[i].0@ == j;
            assert(self.subscriptions.view()[es[i].0@] == es[i].1);
            assert(es[i].1.enabled);
            assert(active_of(es).contains(es[i].1@));
            let a = choose|a: int| 0 <= a < active_of(es).len() && active_of(es)[a] == es[i].1@;
            assert(self.subscriptions()[j] == es[i].1@);
            assert(self.active()[a].service_jid == j);
        }
        if exists|a: int| 0 <= a < self.active().len() && #[trigger] self.active()[a].service_jid == j {
            let a = choose|a: int| 0 <= a < self.active().len() && #[trigger] self.active()[a].service_jid == j;
            assert(enabled_in(es, active_of(es)[a]));
            let i = choose|i: int| 0 <= i < es.len() && es[i].1@ == active_of(es)[a] && es[i].1.enabled;
            let k = es[i].0@;
            assert(self.subscriptions.view().contains_key(k));
            assert(self.subscriptions.view()[k] == es[i].1);
            assert(self.subscriptions().contains_key(k));
            assert(self.subscriptions()[k] == es[i].1@);
            assert(k == j);
        }
    }

    /// Whether the subscription at `service_jid` is enabled: whether one of
    /// the active subscriptions is at that service.
    pub fn is_enabled(&self, service_jid: &str) -> (b: bool)
        ensures
            b == (self.subscriptions().contains_key(service_jid@) && self.subscriptions()[service_jid@].enabled),
            self.keyed() ==> (b <==> exists|i: int| 0 <= i < self.active().len() && #[trigger] self.active()[i].service_jid == service_jid@),
    {
        self.subscriptions.facts();
        let b = match self.subscriptions.get(service_jid) {
            Some(s) => s.enabled,
            None => false,
        };
        proof {
            if self.keyed() {
                self.lemma_enabled_iff_active(service_jid@);
            }
        }
        b
    }

    /// The enabled subscriptions.
    pub fn active_subscriptions(&self) -> (r: Vec<&PushSubscription>)
        ensures
            refs_view(r@) == self.active(),
            forall|i: int| 0 <= i < r@.len() ==> (#[trigger] r@[i]).enabled,
    {
        self.scan_active()
    }

    /// The number of enabled subscriptions.
    pub fn active_count(&self) -> (n: usize)
        ensures
            n == self.active().len(),
    {
        self.scan_active().len()
    }

    fn scan_active(&self) -> (r: Vec<&PushSubscription>)
        ensures
            refs_view(r@) == self.active(),
            forall|i: int| 0 <= i < r@.len() ==> (#[trigger] r@[i]).enabled,
    {
        let pairs = self.subscriptions.pairs();
        let ghost es = self.subscriptions.entries();
        let mut out: Vec<&PushSubscription> = Vec::new();
        let mut i: usize = 0;
        while i < pairs.len()
            invariant
                i <= pairs@.len(),
                pairs@ == es,
                refs_view(out@) == active_of(es.take(i as int)),
                forall|m: int| 0 <= m < out@.len() ==> (#[trigger] out@[m]).enabled,
            decreases pairs@.len() - i,
        {
            let (_, s) = &pairs[i];
            proof {
                assert(es.take(i + 1).drop_last() =~= es.take(i as int));
                assert(es.take(i + 1).last() == es[i as int]);
            }
            let ghost before = out@;
            if s.enabled {
                out.push(s);
                assert(refs_view(out@) =~= refs_view(before).push(s@));
            }
            i += 1;
        }
        assert(es.take(i as int) =~= es);
        out
    }
}

pub open spec fn refs_view(s: Seq<&PushSubscription>) -> Seq<PushSubscriptionView> {
    Seq::new(s.len(), |i: int| s[i]@)
}

/// Each subscription of `m` is stored under its own service.
pub open spec fn keyed_map(m: Map<Seq<char>, PushSubscriptionView>) -> bool {
    forall|k: Seq<char>| #[trigger] m.contains_key(k) ==> m[k].service_jid == k
}

/// One of the pairs holds the enabled subscription `v`.
spec fn enabled_in(es: Seq<(String, PushSubscription)>, v: PushSubscriptionView) -> bool {
    exists|i: int| 0 <= i < es.len() && es[i].1@ == v && es[i].1.enabled
}

proof fn lemma_active_of(es: Seq<(String, PushSubscription)>)
    ensures
        forall|a: int| 0 <= a < active_of(es).len() ==> enabled_in(es, #[trigger] active_of(es)[a]),
        forall|i: int| 0 <= i < es.len() && #[trigger] es[i].1.enabled ==> active_of(es).contains(es[i].1@),
    decreases es.len(),
{
    if es.len() > 0 {
        let init = es.drop_last();
        lemma_active_of(init);
        let n = es.len() - 1;
        assert forall|a: int| 0 <= a < active_of(es).len() implies enabled_in(es, #[trigger] active_of(es)[a]) by {
            if a < active_of(init).len() {
                assert(enabled_in(init, active_of(init)[a]));
                let i = choose|i: int| 0 <= i < init.len() && init[i].1@ == active_of(init)[a] && init[i].1.enabled;
                assert(es[i] == init[i]);
                assert(active_of(es)[a] == active_of(init)[a]);
            } else {
                assert(es[n].1.enabled);
                assert(es[n].1@ == active_of(es)[a]);
            }
        }
        assert forall|i: int| 0 <= i < es.len() && #[trigger] es[i].1.enabled implies active_of(es).contains(es[i].1@) by {
            if i < n {
                assert(init[i] == es[i]);
                assert(active_of(init).contains(init[i].1@));
                let j = choose|j: int| 0 <= j < active_of(init).len() && active_of(init)[j] == init[i].1@;
                assert(active_of(es)[j] == active_of(init)[j]);
            } else {
                assert(active_of(es)[active_of(es).len() - 1] == es[i].1@);
            }
        }
    }
}

/// The enabled subscriptions among the pairs, in order.
pub open spec fn active_of(es: Seq<(String, PushSubscription)>) -> Seq<PushSubscriptionView>
    decreases es.len(),
{
    if es.len() == 0 {
        Seq::empty()
    } else if es.last().1.enabled {
        active_of(es.drop_last()).push(es.last().1@)
    } else {
        active_of(es.drop_last())
    }
}

} // verus!
