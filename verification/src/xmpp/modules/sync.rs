//! Bulk archive synchronisation after connecting: one archive query per
//! conversation, collecting what arrives until every query has finished.
use vstd::prelude::*;
use crate::util::ext::{is_uuid_v4_text, new_uuid};
use crate::util::maps::StrMap;
use crate::util::strs::str_eq;
use crate::util::xml::{Element, ElementView};
use crate::xmpp::modules::mam::{
    opt_view, query_iq, MamFilter, MamManager, MamMessage, MamMessageView, MamQuery, RsmQuery,
};

verus! {

/// The archive query that synchronising conversation `jid` from `after` sends.
pub open spec fn sync_query_matches(q: MamQuery, query_id: Seq<char>, jid: Seq<char>, after: Option<Seq<char>>) -> bool {
    &&& q.query_id@ == query_id
    &&& q.filter.with matches Some(w) && w@ == jid
    &&& q.filter.start is None
    &&& q.filter.end is None
    &&& q.rsm.max == 50
    &&& opt_view(q.rsm.after) == after
    &&& q.rsm.before is None
}

/// The stanza that synchronising conversation `jid` from `after` sends under
/// query id `query_id`, with some fresh IQ id.
pub open spec fn is_sync_iq(e: ElementView, query_id: Seq<char>, jid: Seq<char>, after: Option<Seq<char>>) -> bool {
    exists|q: MamQuery| #[trigger] sync_query_matches(q, query_id, jid, after) && (e.attr("id"@) matches Some(id) && is_uuid_v4_text(id) && e == query_iq(id, q))
}

/// `m` with `keys[i]` mapped to `vals[i]`, in order.
pub open spec fn insert_all(m: Map<Seq<char>, Seq<char>>, keys: Seq<Seq<char>>, vals: Seq<Seq<char>>) -> Map<Seq<char>, Seq<char>>
    decreases keys.len(),
{
    if keys.len() == 0 || vals.len() != keys.len() {
        m
    } else {
        insert_all(m, keys.drop_last(), vals.drop_last()).insert(keys.last(), vals.last())
    }
}

pub open spec fn conv_jids(c: Seq<(String, Option<String>)>) -> Seq<Seq<char>> {
    Seq::new(c.len(), |i: int| c[i].0@)
}

pub open spec fn result_ids(r: Seq<(String, Element)>) -> Seq<Seq<char>> {
    Seq::new(r.len(), |i: int| r[i].0@)
}

pub struct SyncOrchestrator {
    pending: StrMap<String>,
    query_to_jid: StrMap<String>,
    received: Vec<MamMessage>,
    total_fetched: usize,
    mam: MamManager,
}

impl SyncOrchestrator {
    /// Conversation to the query id last started for it, for conversations
    /// whose query has not finished.
    pub closed spec fn pending(&self) -> Map<Seq<char>, Seq<char>> {
        self.pending.view().map_values(|s: String| s@)
    }

    /// Query id to conversation, for queries that have not finished.
    pub closed spec fn queries(&self) -> Map<Seq<char>, Seq<char>> {
        self.query_to_jid.view().map_values(|s: String| s@)
    }

    /// Messages received and not yet drained, in arrival order.
    pub closed spec fn received(&self) -> Seq<MamMessageView> {
        self.received@.map_values(|m: MamMessage| m@)
    }

    /// Messages received since creation.
    pub closed spec fn fetched(&self) -> nat {
        self.total_fetched as nat
    }

    pub fn new() -> (r: Self)
        ensures
            r.pending() == Map::<Seq<char>, Seq<char>>::empty(),
            r.queries() == Map::<Seq<char>, Seq<char>>::empty(),
            r.received() == Seq::<MamMessageView>::empty(),
            r.fetched() == 0,
    {
        let r = SyncOrchestrator {
            pending: StrMap::new(),
            query_to_jid: StrMap::new(),
            received: Vec::new(),
            total_fetched: 0,
            mam: MamManager::new(),
        };
        assert(r.pending() =~= Map::<Seq<char>, Seq<char>>::empty());
        assert(r.queries() =~= Map::<Seq<char>, Seq<char>>::empty());
        assert(r.received() =~= Seq::<MamMessageView>::empty());
        r
    }

    /// Sends one archive query per conversation `(jid, last_stanza_id)`:
    /// returns each query id with its stanza, in the order given.
    pub fn start_sync(&mut self, conversations: &[(String, Option<String>)]) -> (r: Vec<(String, Element)>)
        ensures
            r@.len() == conversations@.len(),
            forall|i: int| 0 <= i < r@.len() ==> is_uuid_v4_text(#[trigger] r@[i].0@),
            forall|i: int| 0 <= i < r@.len() ==> is_sync_iq(#[trigger] r@[i].1@, r@[i].0@, conversations@[i].0@, opt_view(conversations@[i].1)),
            final(self).pending() == insert_all(old(self).pending(), conv_jids(conversations@), result_ids(r@)),
            final(self).queries() == insert_all(old(self).queries(), result_ids(r@), conv_jids(conversations@)),
            final(self).received() == old(self).received(),
            final(self).fetched() == old(self).fetched(),
    {
        let mut out: Vec<(String, Element)> = Vec::new();
        let mut i: usize = 0;
        while i < conversations.len()
            invariant
                i <= conversations@.len(),
                out@.len() == i,
                forall|k: int| 0 <= k < i ==> is_uuid_v4_text(#[trigger] out@[k].0@),
                forall|k: int| 0 <= k < i ==> is_sync_iq(#[trigger] out@[k].1@, out@[k].0@, conversations@[k].0@, opt_view(conversations@[k].1)),
                self.pending() == insert_all(old(self).pending(), conv_jids(conversations@).take(i as int), result_ids(out@)),
                self.queries() == insert_all(old(self).queries(), result_ids(out@), conv_jids(conversations@).take(i as int)),
                self.received() == old(self).received(),
                self.fetched() == old(self).fetched(),
            decreases conversations@.len() - i,
        {
            let (jid, last) = &conversations[i];
            let query_id = new_uuid();
            let after = match last {
                Some(a) => Some(a.clone()),
                None => None,
            };
            let query = MamQuery {
                query_id: query_id.clone(),
                filter: MamFilter { with: Some(jid.clone()), start: None, end: None },
                rsm: RsmQuery { max: 50, after, before: None },
            };
            let ghost qv = query;
            assert(sync_query_matches(qv, query_id@, jid@, opt_view(*last)));
            let iq = self.mam.build_query_iq(query);
            let ghost old_out = out@;
            self.pending.insert(jid.clone(), query_id.clone());
            self.query_to_jid.insert(query_id.clone(), jid.clone());
            out.push((query_id, iq));
            proof {
                let cj = conv_jids(conversations@);
                assert(cj.take(i + 1).drop_last() =~= cj.take(i as int));
                assert(result_ids(out@).drop_last() =~= result_ids(old_out));
                assert(cj.take(i + 1).last() == jid@);
                assert(result_ids(out@).last() == out@[i as int].0@);
                assert(self.pending() =~= insert_all(old(self).pending(), cj.take(i + 1), result_ids(out@)));
                assert(self.queries() =~= insert_all(old(self).queries(), result_ids(out@), cj.take(i + 1)));
                assert(is_sync_iq(out@[i as int].1@, out@[i as int].0@, conversations@[i as int].0@, opt_view(conversations@[i as int].1)));
            }
            i += 1;
        }
        assert(conv_jids(conversations@).take(conversations@.len() as int) =~= conv_jids(conversations@));
        out
    }

    /// An archived message arrived: when its query is one of ours, it is kept
    /// and its conversation returned.
    pub fn on_mam_result(&mut self, msg: MamMessage) -> (r: Option<String>)
        requires
            old(self).fetched() < usize::MAX,
        ensures
            r is None <==> !old(self).queries().contains_key(msg.query_id@),
            r matches Some(j) ==> j@ == old(self).queries()[msg.query_id@]
                && final(self).received() == old(self).received().push(msg@)
                && final(self).fetched() == old(self).fetched() + 1,
            r is None ==> final(self).received() == old(self).received() && final(self).fetched() == old(self).fetched(),
            final(self).pending() == old(self).pending(),
            final(self).queries() == old(self).queries(),
    {
        let jid = match self.query_to_jid.get(msg.query_id.as_str()) {
            Some(j) => j.clone(),
            None => return None,
        };
        let ghost mv = msg@;
        self.received.push(msg);
        assert(self.received() =~= old(self).received().push(mv));
        self.total_fetched = self.total_fetched + 1;
        Some(jid)
    }

    /// Query `query_id` finished: returns its conversation and how many of the
    /// kept messages belong to it.
    pub fn on_fin(&mut self, query_id: &str) -> (r: Option<(String, usize)>)
        ensures
            r is None <==> !old(self).queries().contains_key(query_id@),
            r matches Some(p) ==> p.0@ == old(self).queries()[query_id@]
                && p.1 == old(self).received().filter(|m: MamMessageView| m.query_id == query_id@).len()
                && final(self).pending() == old(self).pending().remove(p.0@)
                && final(self).queries() == old(self).queries().remove(query_id@),
            r is None ==> final(self).pending() == old(self).pending() && final(self).queries() == old(self).queries(),
            final(self).received() == old(self).received(),
            final(self).fetched() == old(self).fetched(),
    {
        let jid = match self.query_to_jid.remove(query_id) {
            Some(j) => j,
            None => return None,
        };
        assert(self.queries() =~= old(self).queries().remove(query_id@));
        self.pending.remove(jid.as_str());
        assert(self.pending() =~= old(self).pending().remove(jid@));
        let ghost pred = |m: MamMessageView| m.query_id == query_id@;
        let mut count: usize = 0;
        let mut i: usize = 0;
        while i < self.received.len()
            invariant
                i <= self.received@.len(),
                pred == (|m: MamMessageView| m.query_id == query_id@),
                count == self.received().take(i as int).filter(pred).len(),
                count <= i,
            decreases self.received@.len() - i,
        {
            proof {
                reveal(Seq::filter);
                assert(self.received().take(i + 1).drop_last() =~= self.received().take(i as int));
                assert(self.received().take(i + 1).last() == self.received@[i as int]@);
            }
            if str_eq(self.received[i].query_id.as_str(), query_id) {
                count += 1;
            }
            i += 1;
        }
        assert(self.received().take(self.received@.len() as int) =~= self.received());
        Some((jid, count))
    }

    /// Whether every query that `start_sync` started has finished: no query
    /// id awaits its `<fin>`.
    pub fn is_complete(&self) -> (b: bool)
        ensures
            b == (self.queries() == Map::<Seq<char>, Seq<char>>::empty()),
    {
        let b = self.query_to_jid.is_empty();
        proof {
            if !b {
                if self.queries() == Map::<Seq<char>, Seq<char>>::empty() {
                    assert(self.query_to_jid.view() =~= Map::<Seq<char>, String>::empty()) by {
                        assert forall|k: Seq<char>| !self.query_to_jid.view().contains_key(k) by {
                            if self.query_to_jid.view().contains_key(k) {
                                assert(self.queries().contains_key(k));
                            }
                        }
                    }
                }
            } else {
                assert(self.queries() =~= Map::<Seq<char>, Seq<char>>::empty());
            }
        }
        b
    }

    /// Takes the kept messages out, leaving none.
    pub fn drain_messages(&mut self) -> (r: Vec<MamMessage>)
        ensures
            r@.map_values(|m: MamMessage| m@) == old(self).received(),
            final(self).received() == Seq::<MamMessageView>::empty(),
            final(self).pending() == old(self).pending(),
            final(self).queries() == old(self).queries(),
            final(self).fetched() == old(self).fetched(),
    {
        let mut r: Vec<MamMessage> = Vec::new();
        std::mem::swap(&mut r, &mut self.received);
        assert(self.received() =~= Seq::<MamMessageView>::empty());
        r
    }

    /// Number of messages kept.
    pub fn received_len(&self) -> (n: usize)
        ensures
            n == self.received().len(),
    {
        self.received.len()
    }

    /// Number of messages received since creation.
    pub fn total_fetched(&self) -> (n: usize)
        ensures
            n == self.fetched(),
    {
        self.total_fetched
    }
}

/// `m` without each of `keys`, removed in order.
pub open spec fn remove_all(m: Map<Seq<char>, Seq<char>>, keys: Seq<Seq<char>>) -> Map<Seq<char>, Seq<char>>
    decreases keys.len(),
{
    if keys.len() == 0 {
        m
    } else {
        remove_all(m, keys.drop_last()).remove(keys.last())
    }
}

proof fn lemma_seq_contains_last(keys: Seq<Seq<char>>, k: Seq<char>)
    requires
        keys.len() > 0,
    ensures
        keys.contains(k) <==> (keys.drop_last().contains(k) || keys.last() == k),
{
    if keys.contains(k) {
        let i = choose|i: int| 0 <= i < keys.len() && keys[i] == k;
        if i < keys.len() - 1 {
            assert(keys.drop_last()[i] == k);
        }
    }
    if keys.drop_last().contains(k) {
        let i = choose|i: int| 0 <= i < keys.drop_last().len() && keys.drop_last()[i] == k;
        assert(keys[i] == k);
    }
    if keys.last() == k {
        assert(keys[keys.len() - 1] == k);
    }
}

proof fn lemma_insert_all_keys(m: Map<Seq<char>, Seq<char>>, keys: Seq<Seq<char>>, vals: Seq<Seq<char>>, k: Seq<char>)
    requires
        keys.len() == vals.len(),
    ensures
        insert_all(m, keys, vals).contains_key(k) <==> (m.contains_key(k) || keys.contains(k)),
    decreases keys.len(),
{
    if keys.len() > 0 {
        lemma_insert_all_keys(m, keys.drop_last(), vals.drop_last(), k);
        lemma_seq_contains_last(keys, k);
    }
}

proof fn lemma_remove_all_keys(m: Map<Seq<char>, Seq<char>>, keys: Seq<Seq<char>>, k: Seq<char>)
    ensures
        remove_all(m, keys).contains_key(k) <==> (m.contains_key(k) && !keys.contains(k)),
    decreases keys.len(),
{
    if keys.len() > 0 {
        lemma_remove_all_keys(m, keys.drop_last(), k);
        lemma_seq_contains_last(keys, k);
    }
}

/// Sync completes exactly when every query it started has finished: from
/// no queries, after `start_sync` registered the query ids `ids` (for the
/// conversations `jids`) and `on_fin` was called with each of `fins`, in
/// that order, no query is left exactly when every id of `ids` is among
/// `fins`. Fins of unknown ids change nothing.
pub proof fn law_sync_complete_iff_all_finished(ids: Seq<Seq<char>>, jids: Seq<Seq<char>>, fins: Seq<Seq<char>>)
    requires
        ids.len() == jids.len(),
    ensures
        (remove_all(insert_all(Map::empty(), ids, jids), fins) == Map::<Seq<char>, Seq<char>>::empty()) <==> (forall|i: int|
            0 <= i < ids.len() ==> fins.contains(#[trigger] ids[i])),
{
    let started = insert_all(Map::<Seq<char>, Seq<char>>::empty(), ids, jids);
    let left = remove_all(started, fins);
    if left == Map::<Seq<char>, Seq<char>>::empty() {
        assert forall|i: int| 0 <= i < ids.len() implies fins.contains(#[trigger] ids[i]) by {
            lemma_insert_all_keys(Map::empty(), ids, jids, ids[i]);
            lemma_remove_all_keys(started, fins, ids[i]);
            assert(ids.contains(ids[i]));
            assert(!left.contains_key(ids[i]));
        }
    }
    if forall|i: int| 0 <= i < ids.len() ==> fins.contains(#[trigger] ids[i]) {
        assert forall|k: Seq<char>| !#[trigger] left.contains_key(k) by {
            lemma_insert_all_keys(Map::empty(), ids, jids, k);
            lemma_remove_all_keys(started, fins, k);
            if ids.contains(k) {
                let i = choose|i: int| 0 <= i < ids.len() && ids[i] == k;
                assert(fins.contains(ids[i]));
            }
        }
        assert(left =~= Map::<Seq<char>, Seq<char>>::empty());
    }
}

} // verus!
