//! Message archive management (XEP-0313) with result set management (XEP-0059):
//! building archive queries and collecting the archived messages and the final
//! `<fin>` of each query.
use vstd::prelude::*;
use crate::util::ext::{is_uuid_v4_text, new_uuid};
use crate::util::maps::StrMap;
use crate::util::strs::{chars_of, dec_str, parse_unsigned, parse_unsigned_chars, str_eq, u64_to_string};
use crate::util::xml::{Element, ElementView, elem, first_child};
use super::{NS_CLIENT, NS_DATA, NS_FORWARD, NS_MAM};

verus! {

broadcast use crate::util::xml::group_xml;

pub const NS_RSM: &'static str = "http://jabber.org/protocol/rsm";
pub const NS_DELAY: &'static str = "urn:ietf:params:xml:ns:xmpp-delay";

/// Paging information of a finished query.
#[derive(Debug, Clone, PartialEq, Eq)]
pub struct RsmSet {
    pub first: Option<String>,
    pub last: Option<String>,
    pub count: Option<u32>,
}

/// Paging request of a query.
#[derive(Debug, Clone)]
pub struct RsmQuery {
    pub max: u32,
    pub after: Option<String>,
    pub before: Option<String>,
}

/// Filter of a query.
#[derive(Debug, Clone)]
pub struct MamFilter {
    pub with: Option<String>,
    pub start: Option<String>,
    pub end: Option<String>,
}

/// An archive query.
#[derive(Debug, Clone)]
pub struct MamQuery {
    pub query_id: String,
    pub filter: MamFilter,
    pub rsm: RsmQuery,
}

/// A message delivered from the archive.
#[derive(Debug, Clone)]
pub struct MamMessage {
    pub archive_id: String,
    pub query_id: String,
    pub timestamp: String,
    pub forwarded_from: String,
    pub body: String,
}

/// What a query has collected.
#[derive(Debug, Clone)]
pub struct MamResult {
    pub messages: Vec<MamMessage>,
    pub rsm: RsmSet,
    pub complete: bool,
}

pub open spec fn opt_view(o: Option<String>) -> Option<Seq<char>> {
    match o {
        Some(s) => Some(s@),
        None => None,
    }
}

impl MamMessage {
    /// A copy with the same fields.
    pub fn copy(&self) -> (r: MamMessage)
        ensures
            r@ == self@,
    {
        MamMessage {
            archive_id: self.archive_id.clone(),
            query_id: self.query_id.clone(),
            timestamp: self.timestamp.clone(),
            forwarded_from: self.forwarded_from.clone(),
            body: self.body.clone(),
        }
    }
}

pub struct MamMessageView {
    pub archive_id: Seq<char>,
    pub query_id: Seq<char>,
    pub timestamp: Seq<char>,
    pub forwarded_from: Seq<char>,
    pub body: Seq<char>,
}

impl View for MamMessage {
    type V = MamMessageView;

    open spec fn view(&self) -> MamMessageView {
        MamMessageView {
            archive_id: self.archive_id@,
            query_id: self.query_id@,
            timestamp: self.timestamp@,
            forwarded_from: self.forwarded_from@,
            body: self.body@,
        }
    }
}

pub struct RsmSetView {
    pub first: Option<Seq<char>>,
    pub last: Option<Seq<char>>,
    pub count: Option<u32>,
}

impl View for RsmSet {
    type V = RsmSetView;

    open spec fn view(&self) -> RsmSetView {
        RsmSetView { first: opt_view(self.first), last: opt_view(self.last), count: self.count }
    }
}

pub struct MamResultView {
    pub messages: Seq<MamMessageView>,
    pub rsm: RsmSetView,
    pub complete: bool,
}

impl View for MamResult {
    type V = MamResultView;

    open spec fn view(&self) -> MamResultView {
        MamResultView {
            messages: self.messages@.map_values(|m: MamMessage| m@),
            rsm: self.rsm@,
            complete: self.complete,
        }
    }
}

/// A data-form field with one value.
pub open spec fn form_field(var: Seq<char>, value: Seq<char>) -> ElementView {
    elem("field"@, NS_DATA@).with_attr("var"@, var).with_child(elem("value"@, NS_DATA@).with_text(value))
}

pub open spec fn add_opt_field(form: ElementView, var: Seq<char>, value: Option<String>) -> ElementView {
    match value {
        Some(v) => form.with_child(form_field(var, v@)),
        None => form,
    }
}

pub open spec fn add_opt_text_child(e: ElementView, name: Seq<char>, ns: Seq<char>, value: Option<String>) -> ElementView {
    match value {
        Some(v) => e.with_child(elem(name, ns).with_text(v@)),
        None => e,
    }
}

/// The `<iq type='set'>` with the `<query>` for `q`, whose id is `iq_id`.
pub open spec fn query_iq(iq_id: Seq<char>, q: MamQuery) -> ElementView {
    let form0 = elem("x"@, NS_DATA@).with_attr("type"@, "submit"@).with_child(form_field("FORM_TYPE"@, NS_MAM@));
    let form = add_opt_field(add_opt_field(add_opt_field(form0, "with"@, q.filter.with), "start"@, q.filter.start), "end"@, q.filter.end);
    let rsm0 = elem("set"@, NS_RSM@).with_child(elem("max"@, NS_RSM@).with_text(dec_str(q.rsm.max as nat)));
    let rsm = add_opt_text_child(add_opt_text_child(rsm0, "after"@, NS_RSM@, q.rsm.after), "before"@, NS_RSM@, q.rsm.before);
    let query = elem("query"@, NS_MAM@).with_attr("queryid"@, q.query_id@).with_child(form).with_child(rsm);
    elem("iq"@, NS_CLIENT@).with_attr("type"@, "set"@).with_attr("id"@, iq_id).with_child(query)
}

/// The text of a child, or nothing.
pub open spec fn text_or_empty(c: Option<ElementView>) -> Seq<char> {
    match c {
        Some(e) => e.text,
        None => Seq::empty(),
    }
}

/// The value of an attribute, or the empty string.
pub open spec fn attr_or_empty(e: ElementView, k: Seq<char>) -> Seq<char> {
    match e.attr(k) {
        Some(v) => v,
        None => Seq::empty(),
    }
}

/// The archived message an incoming `<message>` carries, when it carries one.
pub open spec fn archived_message(e: ElementView) -> Option<MamMessageView> {
    if e.name != "message"@ {
        None
    } else {
        match e.child("result"@, NS_MAM@) {
            None => None,
            Some(result) => match (result.attr("id"@), result.attr("queryid"@)) {
                (Some(archive_id), Some(query_id)) => match result.child("forwarded"@, NS_FORWARD@) {
                    None => None,
                    Some(fwd) => {
                        let timestamp = match fwd.child("delay"@, NS_DELAY@) {
                            Some(d) => attr_or_empty(d, "stamp"@),
                            None => Seq::empty(),
                        };
                        match fwd.child_named("message"@) {
                            None => None,
                            Some(inner) => Some(MamMessageView {
                                archive_id,
                                query_id,
                                timestamp,
                                forwarded_from: attr_or_empty(inner, "from"@),
                                body: text_or_empty(inner.child_named("body"@)),
                            }),
                        }
                    },
                },
                _ => None,
            },
        }
    }
}

/// The paging data of the children of a `<set>`, later children overriding earlier ones.
pub open spec fn rsm_fold(cs: Seq<ElementView>) -> RsmSetView
    decreases cs.len(),
{
    if cs.len() == 0 {
        RsmSetView { first: None, last: None, count: None }
    } else {
        let acc = rsm_fold(cs.drop_last());
        let c = cs.last();
        if c.name == "first"@ {
            RsmSetView { first: Some(c.text), ..acc }
        } else if c.name == "last"@ {
            RsmSetView { last: Some(c.text), ..acc }
        } else if c.name == "count"@ {
            RsmSetView {
                count: match parse_unsigned(c.text, 0xffff_ffff) {
                    Some(n) => Some(n as u32),
                    None => None,
                },
                ..acc
            }
        } else {
            acc
        }
    }
}

/// The paging data of a `<fin>`.
pub open spec fn fin_rsm(fin: ElementView) -> RsmSetView {
    match fin.child("set"@, NS_RSM@) {
        Some(set) => rsm_fold(set.children),
        None => RsmSetView { first: None, last: None, count: None },
    }
}

pub struct MamManager {
    pending_queries: StrMap<MamQuery>,
    results: StrMap<MamResult>,
}

impl MamManager {
    /// Query ids sent and not yet finished.
    pub closed spec fn pending(&self) -> Map<Seq<char>, MamQuery> {
        self.pending_queries.view()
    }

    /// What each query has collected so far.
    pub closed spec fn results(&self) -> Map<Seq<char>, MamResultView> {
        self.results.view().map_values(|r: MamResult| r@)
    }

    /// The pending queries are finitely many.
    pub fn pending_facts(&self)
        ensures
            self.pending().dom().finite(),
    {
        self.pending_queries.facts();
    }

    pub fn new() -> (r: Self)
        ensures
            r.pending() == Map::<Seq<char>, MamQuery>::empty(),
            r.results() == Map::<Seq<char>, MamResultView>::empty(),
    {
        let r = MamManager { pending_queries: StrMap::new(), results: StrMap::new() };
        assert(r.results() =~= Map::<Seq<char>, MamResultView>::empty());
        r
    }

    /// Builds the query stanza for `query` under a fresh IQ id, and records the
    /// query as pending with an empty result.
    pub fn build_query_iq(&mut self, query: MamQuery) -> (r: Element)
        ensures
            r@.attr("id"@) matches Some(id) && is_uuid_v4_text(id) && r@ == query_iq(id, query),
            final(self).pending() == old(self).pending().insert(query.query_id@, query),
            final(self).results() == old(self).results().insert(
                query.query_id@,
                MamResultView { messages: Seq::empty(), rsm: RsmSetView { first: None, last: None, count: None }, complete: false },
            ),
    {
        let iq_id = new_uuid();
        let form_type = Element::new("field", NS_DATA).with_attr("var", "FORM_TYPE").with_child(
            Element::new("value", NS_DATA).with_text(NS_MAM),
        );
        let mut form = Element::new("x", NS_DATA).with_attr("type", "submit").with_child(form_type);
        form = with_opt_field(form, "with", &query.filter.with);
        form = with_opt_field(form, "start", &query.filter.start);
        form = with_opt_field(form, "end", &query.filter.end);
        let max_text = u64_to_string(query.rsm.max as u64);
        let mut rsm = Element::new("set", NS_RSM).with_child(Element::new("max", NS_RSM).with_text(max_text.as_str()));
        rsm = with_opt_text_child(rsm, "after", NS_RSM, &query.rsm.after);
        rsm = with_opt_text_child(rsm, "before", NS_RSM, &query.rsm.before);
        let mam_query = Element::new("query", NS_MAM).with_attr("queryid", query.query_id.as_str()).with_child(form).with_child(rsm);
        let iq = Element::new("iq", NS_CLIENT).with_attr("type", "set").with_attr("id", iq_id.as_str()).with_child(mam_query);
        proof {
            reveal_strlit("type");
            reveal_strlit("id");
            assert("type"@.len() == 4);
            assert("id"@.len() == 2);
        }
        assert(iq@.attr("id"@) == Some(iq_id@));
        let empty = MamResult { messages: Vec::new(), rsm: RsmSet { first: None, last: None, count: None }, complete: false };
        let ghost er = empty@;
        assert(er.messages =~= Seq::<MamMessageView>::empty());
        let ghost old_results = self.results.view();
        self.results.insert(query.query_id.clone(), empty);
        assert(self.results() =~= old(self).results().insert(
            query.query_id@,
            MamResultView { messages: Seq::empty(), rsm: RsmSetView { first: None, last: None, count: None }, complete: false },
        ));
        self.pending_queries.insert(query.query_id.clone(), query);
        iq
    }

    /// Reads an archived message out of an incoming `<message>`; when its
    /// query is being collected, the message is added to that result.
    pub fn on_mam_message(&mut self, el: &Element) -> (r: Option<MamMessage>)
        ensures
            r is None <==> archived_message(el@) is None,
            r matches Some(m) ==> m@ == archived_message(el@)->0,
            final(self).pending() == old(self).pending(),
            r matches Some(m) ==> (old(self).results().contains_key(m.query_id@) ==> final(self).results() == old(self).results().insert(
                m.query_id@,
                MamResultView {
                    messages: old(self).results()[m.query_id@].messages.push(m@),
                    ..old(self).results()[m.query_id@]
                },
            )),
            r is None || !old(self).results().contains_key(r->0.query_id@) ==> final(self).results() == old(self).results(),
    {
        let msg = match parse_archived(el) {
            Some(m) => m,
            None => return None,
        };
        let ghost old_results = self.results.view();
        match self.results.remove(msg.query_id.as_str()) {
            Some(mut result) => {
                let ghost before = result@;
                result.messages.push(msg.copy());
                assert(result@.messages =~= before.messages.push(msg@));
                self.results.insert(msg.query_id.clone(), result);
                assert(self.results.view() =~= old_results.insert(msg.query_id@, result));
                assert(self.results() =~= old(self).results().insert(
                    msg.query_id@,
                    MamResultView { messages: old(self).results()[msg.query_id@].messages.push(msg@), ..old(self).results()[msg.query_id@] },
                ));
            },
            None => {
                assert(self.results.view() =~= old_results);
            },
        }
        Some(msg)
    }

    /// Handles the `<iq>` that ends a query: takes the query's result out of
    /// the manager with the paging data and completion flag of its `<fin>`.
    /// The query id is the `<fin>`'s `queryid`, or, when it has none and
    /// exactly one query is pending, that one.
    pub fn on_fin_iq(&mut self, el: &Element) -> (r: Option<(String, MamResult)>)
        ensures
            r is None ==> final(self).pending() == old(self).pending() && final(self).results() == old(self).results(),
            r is None ==> el@.name != "iq"@ || el@.child("fin"@, NS_MAM@) is None || (
                el@.child("fin"@, NS_MAM@)->0.attr("queryid"@) is None && old(self).pending().len() != 1),
            r is Some ==> el@.name == "iq"@ && el@.child("fin"@, NS_MAM@) is Some,
            r matches Some(p) ==> ({
                let fin = el@.child("fin"@, NS_MAM@)->0;
                let qid = p.0@;
                &&& (fin.attr("queryid"@) matches Some(q) ==> qid == q)
                &&& (fin.attr("queryid"@) is None ==> old(self).pending().len() == 1 && old(self).pending().contains_key(qid))
                &&& p.1@.rsm == fin_rsm(fin)
                &&& p.1@.complete == (fin.attr("complete"@) == Some("true"@))
                &&& (old(self).results().contains_key(qid) ==> p.1@.messages == old(self).results()[qid].messages)
                &&& (!old(self).results().contains_key(qid) ==> p.1@.messages.len() == 0)
                &&& final(self).pending() == old(self).pending().remove(qid)
                &&& final(self).results() == old(self).results().remove(qid)
            }),
    {
        if !str_eq(el.name(), "iq") {
            return None;
        }
        let fin = match el.get_child("fin", NS_MAM) {
            Some(f) => f,
            None => return None,
        };
        let query_id: String = match fin.attr("queryid") {
            Some(q) => q.to_owned(),
            None => {
                if self.pending_queries.len() == 1 {
                    self.pending_queries.facts();
                    let (k, _) = self.pending_queries.entry_at(0);
                    k.clone()
                } else {
                    return None;
                }
            },
        };
        let complete = fin.attr_is("complete", "true");
        let rsm = parse_fin_rsm(fin);
        let ghost old_results = self.results.view();
        let mut result = match self.results.remove(query_id.as_str()) {
            Some(r) => r,
            None => {
                let e = MamResult { messages: Vec::new(), rsm: RsmSet { first: None, last: None, count: None }, complete: false };
                assert(e@.messages =~= Seq::<MamMessageView>::empty());
                e
            },
        };
        result.rsm = rsm;
        result.complete = complete;
        assert(self.results() =~= old(self).results().remove(query_id@));
        self.pending_queries.remove(query_id.as_str());
        Some((query_id, result))
    }

    /// The number of pending queries.
    pub fn pending_len(&self) -> (n: usize)
        ensures
            n == self.pending().len(),
    {
        self.pending_queries.len()
    }

    /// The number of queries with a collected result.
    pub fn results_len(&self) -> (n: usize)
        ensures
            n == self.results().len(),
    {
        assert(self.results().dom() =~= self.results.view().dom());
        self.results.len()
    }

    /// Whether query `query_id` has been sent and not finished.
    pub fn is_pending(&self, query_id: &str) -> (b: bool)
        ensures
            b == self.pending().contains_key(query_id@),
    {
        self.pending_queries.contains_key(query_id)
    }
}

fn with_opt_field(form: Element, var: &str, value: &Option<String>) -> (r: Element)
    ensures
        r@ == add_opt_field(form@, var@, *value),
{
    match value {
        Some(v) => form.with_child(Element::new("field", NS_DATA).with_attr("var", var).with_child(
            Element::new("value", NS_DATA).with_text(v.as_str()),
        )),
        None => form,
    }
}

fn with_opt_text_child(e: Element, name: &str, ns: &str, value: &Option<String>) -> (r: Element)
    ensures
        r@ == add_opt_text_child(e@, name@, ns@, *value),
{
    match value {
        Some(v) => e.with_child(Element::new(name, ns).with_text(v.as_str())),
        None => e,
    }
}

fn attr_or_empty_exec(e: &Element, k: &str) -> (r: String)
    ensures
        r@ == attr_or_empty(e@, k@),
{
    match e.attr(k) {
        Some(v) => v.to_owned(),
        None => String::new(),
    }
}

/// The archived message in `el`, when there is one.
fn parse_archived(el: &Element) -> (r: Option<MamMessage>)
    ensures
        r is None <==> archived_message(el@) is None,
        r matches Some(m) ==> m@ == archived_message(el@)->0,
{
    if !str_eq(el.name(), "message") {
        return None;
    }
    let result = match el.get_child("result", NS_MAM) {
        Some(r) => r,
        None => return None,
    };
    let archive_id = match result.attr("id") {
        Some(a) => a.to_owned(),
        None => return None,
    };
    let query_id = match result.attr("queryid") {
        Some(q) => q.to_owned(),
        None => return None,
    };
    let fwd = match result.get_child("forwarded", NS_FORWARD) {
        Some(f) => f,
        None => return None,
    };
    let timestamp = match fwd.get_child("delay", NS_DELAY) {
        Some(d) => attr_or_empty_exec(d, "stamp"),
        None => String::new(),
    };
    let inner = match fwd.get_child_named("message") {
        Some(m) => m,
        None => return None,
    };
    let forwarded_from = attr_or_empty_exec(inner, "from");
    let body = match inner.get_child_named("body") {
        Some(b) => b.text(),
        None => String::new(),
    };
    Some(MamMessage { archive_id, query_id, timestamp, forwarded_from, body })
}

/// The paging data of a `<fin>`.
fn parse_fin_rsm(fin: &Element) -> (r: RsmSet)
    ensures
        r@ == fin_rsm(fin@),
{
    let mut rsm = RsmSet { first: None, last: None, count: None };
    let set = match fin.get_child("set", NS_RSM) {
        Some(s) => s,
        None => return rsm,
    };
    let cs = set.children();
    let ghost csv = set@.children;
    let mut i: usize = 0;
    while i < cs.len()
        invariant
            i <= cs@.len(),
            csv == set@.children,
            cs@.len() == csv.len(),
            forall|j: int| 0 <= j < cs@.len() ==> #[trigger] cs@[j]@ == csv[j],
            rsm@ == rsm_fold(csv.take(i as int)),
        decreases cs@.len() - i,
    {
        let c = &cs[i];
        proof {
            assert(csv.take(i + 1).drop_last() =~= csv.take(i as int));
            assert(csv.take(i + 1).last() == c@);
        }
        if str_eq(c.name(), "first") {
            rsm.first = Some(c.text());
        } else if str_eq(c.name(), "last") {
            rsm.last = Some(c.text());
        } else if str_eq(c.name(), "count") {
            let t = chars_of(c.text().as_str());
            assert(t@.skip(0) =~= t@);
            rsm.count = match parse_unsigned_chars(&t, 0, 0xffff_ffff) {
                Some(n) => Some(n as u32),
                None => None,
            };
        }
        i += 1;
    }
    assert(csv.take(cs@.len() as int) =~= csv);
    rsm
}

} // verus!
