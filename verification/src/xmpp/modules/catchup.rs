//! Archive catch-up after reconnecting: one archive query per conversation,
//! tracked from `Fetching` to `Complete`.
use vstd::prelude::*;
use crate::util::ext::{is_uuid_v4_text, new_uuid};
use crate::util::maps::StrMap;
use crate::xmpp::modules::mam::{MamFilter, MamQuery, RsmQuery};

verus! {

/// Where the catch-up of one conversation stands.
#[derive(Debug, Clone, PartialEq, Eq)]
pub enum CatchupState {
    Idle,
    Fetching { query_id: String, after: Option<String> },
    Complete,
}

pub enum CatchupStateView {
    Idle,
    Fetching { query_id: Seq<char>, after: Option<Seq<char>> },
    Complete,
}

impl View for CatchupState {
    type V = CatchupStateView;

    open spec fn view(&self) -> CatchupStateView {
        match self {
            CatchupState::Idle => CatchupStateView::Idle,
            CatchupState::Fetching { query_id, after } => CatchupStateView::Fetching {
                query_id: query_id@,
                after: match after {
                    Some(a) => Some(a@),
                    None => None,
                },
            },
            CatchupState::Complete => CatchupStateView::Complete,
        }
    }
}

impl CatchupState {
    /// A copy with the same value.
    pub fn copy(&self) -> (r: CatchupState)
        ensures
            r@ == self@,
    {
        match self {
            CatchupState::Idle => CatchupState::Idle,
            CatchupState::Fetching { query_id, after } => CatchupState::Fetching {
                query_id: query_id.clone(),
                after: match after {
                    Some(a) => Some(a.clone()),
                    None => None,
                },
            },
            CatchupState::Complete => CatchupState::Complete,
        }
    }
}

pub open spec fn opt_str_view(o: Option<&str>) -> Option<Seq<char>> {
    match o {
        Some(s) => Some(s@),
        None => None,
    }
}

pub struct CatchupManager {
    states: StrMap<CatchupState>,
    query_to_jid: StrMap<String>,
}

impl CatchupManager {
    /// The state of each conversation with a catch-up.
    pub closed spec fn states(&self) -> Map<Seq<char>, CatchupStateView> {
        self.states.view().map_values(|s: CatchupState| s@)
    }

    /// The conversation of each query that has not finished.
    pub closed spec fn queries(&self) -> Map<Seq<char>, Seq<char>> {
        self.query_to_jid.view().map_values(|s: String| s@)
    }

    pub fn new() -> (r: Self)
        ensures
            r.states() == Map::<Seq<char>, CatchupStateView>::empty(),
            r.queries() == Map::<Seq<char>, Seq<char>>::empty(),
    {
        let r = CatchupManager { states: StrMap::new(), query_to_jid: StrMap::new() };
        assert(r.states() =~= Map::<Seq<char>, CatchupStateView>::empty());
        assert(r.queries() =~= Map::<Seq<char>, Seq<char>>::empty());
        r
    }

    /// Starts catching up `conversation_jid` after `last_stanza_id` (from the
    /// start of the archive when `None`): a page of 50 messages with that
    /// conversation, under a fresh query id.
    pub fn start(&mut self, conversation_jid: &str, last_stanza_id: Option<&str>) -> (r: (String, MamQuery))
        ensures
            is_uuid_v4_text(r.0@),
            r.1.query_id@ == r.0@,
            r.1.filter.with matches Some(w) && w@ == conversation_jid@,
            r.1.filter.start is None,
            r.1.filter.end is None,
            r.1.rsm.max == 50,
            crate::xmpp::modules::mam::opt_view(r.1.rsm.after) == opt_str_view(last_stanza_id),
            r.1.rsm.before is None,
            final(self).states() == old(self).states().insert(
                conversation_jid@,
                CatchupStateView::Fetching { query_id: r.0@, after: opt_str_view(last_stanza_id) },
            ),
            final(self).queries() == old(self).queries().insert(r.0@, conversation_jid@),
    {
        let query_id = new_uuid();
        let after = match last_stanza_id {
            Some(s) => Some(s.to_owned()),
            None => None,
        };
        let after2 = match last_stanza_id {
            Some(s) => Some(s.to_owned()),
            None => None,
        };
        let query = MamQuery {
            query_id: query_id.clone(),
            filter: MamFilter { with: Some(conversation_jid.to_owned()), start: None, end: None },
            rsm: RsmQuery { max: 50, after: after, before: None },
        };
        let st = CatchupState::Fetching { query_id: query_id.clone(), after: after2 };
        let ghost sv = st@;
        self.states.insert(conversation_jid.to_owned(), st);
        assert(self.states() =~= old(self).states().insert(conversation_jid@, sv));
        self.query_to_jid.insert(query_id.clone(), conversation_jid.to_owned());
        assert(self.queries() =~= old(self).queries().insert(query_id@, conversation_jid@));
        (query_id, query)
    }

    /// The conversation an archived message of query `query_id` belongs to,
    /// while that conversation is still being fetched.
    pub fn on_result(&self, query_id: &str, _conversation_jid: &str) -> (r: Option<&str>)
        ensures
            r matches Some(j) ==> self.queries().contains_key(query_id@) && self.queries()[query_id@] == j@
                && self.states().contains_key(j@) && self.states()[j@] is Fetching,
            r is None ==> !self.queries().contains_key(query_id@) || !self.states().contains_key(self.queries()[query_id@])
                || !(self.states()[self.queries()[query_id@]] is Fetching),
    {
        let jid = match self.query_to_jid.get(query_id) {
            Some(j) => j,
            None => return None,
        };
        match self.states.get(jid.as_str()) {
            Some(CatchupState::Fetching { .. }) => Some(jid.as_str()),
            _ => None,
        }
    }

    /// The query `query_id` finished: its conversation is complete.
    pub fn on_fin(&mut self, query_id: &str)
        ensures
            old(self).queries().contains_key(query_id@) ==> final(self).states() == old(self).states().insert(
                old(self).queries()[query_id@],
                CatchupStateView::Complete,
            ),
            !old(self).queries().contains_key(query_id@) ==> final(self).states() == old(self).states(),
            final(self).queries() == old(self).queries().remove(query_id@),
    {
        let r = self.query_to_jid.remove(query_id);
        assert(self.queries() =~= old(self).queries().remove(query_id@));
        if let Some(jid) = r {
            self.states.insert(jid, CatchupState::Complete);
            assert(self.states() =~= old(self).states().insert(old(self).queries()[query_id@], CatchupStateView::Complete));
        }
    }

    /// Whether no conversation is being fetched.
    pub fn is_idle(&self) -> (b: bool)
        ensures
            b == (forall|j: Seq<char>| #[trigger] self.states().contains_key(j) ==> !(self.states()[j] is Fetching)),
    {
        self.states.facts();
        let n = self.states.len();
        let mut i: usize = 0;
        while i < n
            invariant
                i <= n,
                n == self.states.entries().len(),
                forall|k: int| 0 <= k < i ==> !(#[trigger] self.states.entries()[k].1@ is Fetching),
            decreases n - i,
        {
            let (_, st) = self.states.entry_at(i);
            if let CatchupState::Fetching { .. } = st {
                self.states.facts();
                proof {
                    let k = self.states.entries()[i as int].0@;
                    assert(self.states.view().contains_key(k));
                    assert(self.states.view()[self.states.entries()[i as int].0@] == self.states.entries()[i as int].1);
                    assert(self.states().contains_key(k));
                    assert(self.states()[k] is Fetching);
                }
                return false;
            }
            i += 1;
        }
        proof {
            assert forall|j: Seq<char>| #[trigger] self.states().contains_key(j) implies !(self.states()[j] is Fetching) by {
                let k = choose|k: int| 0 <= k < self.states.entries().len() && self.states.entries()[k].0@ == j;
                assert(self.states.view()[self.states.entries()[k].0@] == self.states.entries()[k].1);
            }
        }
        true
    }

    /// Forgets every catch-up.
    pub fn reset(&mut self)
        ensures
            final(self).states() == Map::<Seq<char>, CatchupStateView>::empty(),
            final(self).queries() == Map::<Seq<char>, Seq<char>>::empty(),
    {
        self.states.clear();
        self.query_to_jid.clear();
        assert(self.states() =~= Map::<Seq<char>, CatchupStateView>::empty());
        assert(self.queries() =~= Map::<Seq<char>, Seq<char>>::empty());
    }

    /// The state of one conversation; `Idle` when it has none.
    pub fn state_for(&self, conversation_jid: &str) -> (r: CatchupState)
        ensures
            self.states().contains_key(conversation_jid@) ==> r@ == self.states()[conversation_jid@],
            !self.states().contains_key(conversation_jid@) ==> r@ == CatchupStateView::Idle,
    {
        match self.states.get(conversation_jid) {
            Some(s) => s.copy(),
            None => CatchupState::Idle,
        }
    }
}

/// Once the `<fin>` of query `qid` has been handled (`after` is what
/// `on_fin(qid)` makes of `before`), no archived message is attributed any
/// more to that query, nor to any other query of the same conversation:
/// the conversation is complete.
pub proof fn law_no_results_after_fin(before: CatchupManager, after: CatchupManager, qid: Seq<char>)
    requires
        before.queries().contains_key(qid),
        after.states() == before.states().insert(before.queries()[qid], CatchupStateView::Complete),
        after.queries() == before.queries().remove(qid),
    ensures
        !after.queries().contains_key(qid),
        forall|q: Seq<char>|
            #[trigger] after.queries().contains_key(q) && after.queries()[q] == before.queries()[qid] ==> !(
            after.states()[after.queries()[q]] is Fetching),
{
}

/// A call on a catch-up manager, with what it was given and, for a start,
/// the query id it made.
pub enum CatchupOp {
    Start { jid: Seq<char>, after: Option<Seq<char>>, query_id: Seq<char> },
    Fin { query_id: Seq<char> },
    Reset,
}

/// The conversation states and the open queries of a manager.
pub struct CatchupModel {
    pub states: Map<Seq<char>, CatchupStateView>,
    pub queries: Map<Seq<char>, Seq<char>>,
}

/// What one call does, as `start`, `on_fin` and `reset` state it.
pub open spec fn catchup_step(m: CatchupModel, op: CatchupOp) -> CatchupModel {
    match op {
        CatchupOp::Start { jid, after, query_id } => CatchupModel {
            states: m.states.insert(jid, CatchupStateView::Fetching { query_id, after }),
            queries: m.queries.insert(query_id, jid),
        },
        CatchupOp::Fin { query_id } => CatchupModel {
            states: if m.queries.contains_key(query_id) {
                m.states.insert(m.queries[query_id], CatchupStateView::Complete)
            } else {
                m.states
            },
            queries: m.queries.remove(query_id),
        },
        CatchupOp::Reset => CatchupModel { states: Map::empty(), queries: Map::empty() },
    }
}

/// The model after the calls `ops`, in order.
pub open spec fn catchup_run(m: CatchupModel, ops: Seq<CatchupOp>) -> CatchupModel
    decreases ops.len(),
{
    if ops.len() == 0 {
        m
    } else {
        catchup_step(catchup_run(m, ops.drop_last()), ops.last())
    }
}

/// Whether `op`, made on `m`, concerns conversation `jid` or query
/// `query_id`: a start of either, the fin of that query or of a query of
/// that conversation, or a reset.
pub open spec fn catchup_touches(m: CatchupModel, op: CatchupOp, jid: Seq<char>, query_id: Seq<char>) -> bool {
    match op {
        CatchupOp::Start { jid: j, query_id: q, .. } => j == jid || q == query_id,
        CatchupOp::Fin { query_id: q } => q == query_id || (m.queries.contains_key(q) && m.queries[q] == jid),
        CatchupOp::Reset => true,
    }
}

/// After `start(jid, after)` made query `query_id`, as long as no later
/// call concerns that conversation or that query, the conversation is
/// being fetched by that query from `after`, and the query belongs to the
/// conversation: `state_for(jid)` is that `Fetching` state and
/// `on_result(query_id, ..)` gives `jid`.
pub proof fn law_catchup_last_start(
    m: CatchupModel,
    ops: Seq<CatchupOp>,
    i: int,
    jid: Seq<char>,
    after: Option<Seq<char>>,
    query_id: Seq<char>,
)
    requires
        0 <= i < ops.len(),
        ops[i] == (CatchupOp::Start { jid, after, query_id }),
        forall|k: int| i < k < ops.len() ==> !catchup_touches(catchup_run(m, ops.take(k)), #[trigger] ops[k], jid, query_id),
    ensures
        catchup_run(m, ops).states.contains_key(jid),
        catchup_run(m, ops).states[jid] == (CatchupStateView::Fetching { query_id, after }),
        catchup_run(m, ops).queries.contains_key(query_id),
        catchup_run(m, ops).queries[query_id] == jid,
    decreases ops.len(),
{
    let n = ops.len() - 1;
    let init = ops.drop_last();
    assert(ops.take(n) =~= init);
    if n > i {
        assert forall|k: int| i < k < init.len() implies !catchup_touches(catchup_run(m, init.take(k)), #[trigger] init[k], jid, query_id) by {
            assert(init.take(k) =~= ops.take(k));
            assert(init[k] == ops[k]);
        }
        law_catchup_last_start(m, init, i, jid, after, query_id);
        assert(!catchup_touches(catchup_run(m, ops.take(n)), ops[n], jid, query_id));
    }
}

/// A conversation that no call started has no catch-up: `state_for`
/// gives `Idle` for it.
pub proof fn law_catchup_never_started(m: CatchupModel, ops: Seq<CatchupOp>, jid: Seq<char>)
    requires
        !m.states.contains_key(jid),
        forall|k: int| 0 <= k < ops.len() ==> !(#[trigger] ops[k] matches CatchupOp::Start { jid: j, .. } && j == jid),
        forall|q: Seq<char>| #[trigger] m.queries.contains_key(q) ==> m.queries[q] != jid,
    ensures
        !catchup_run(m, ops).states.contains_key(jid),
        forall|q: Seq<char>| #[trigger] catchup_run(m, ops).queries.contains_key(q) ==> catchup_run(m, ops).queries[q] != jid,
    decreases ops.len(),
{
    if ops.len() > 0 {
        let init = ops.drop_last();
        assert forall|k: int| 0 <= k < init.len() implies !(#[trigger] init[k] matches CatchupOp::Start { jid: j, .. } && j == jid) by {
            assert(init[k] == ops[k]);
        }
        law_catchup_never_started(m, init, jid);
        assert(!(ops[ops.len() - 1] matches CatchupOp::Start { jid: j, .. } && j == jid));
    }
}

} // verus!
