//! The XMPP console: a bounded log of raw stanzas for debugging. When full,
//! the oldest entry is evicted on the next push.
use vstd::prelude::*;
use std::collections::VecDeque;
use crate::util::ext::{lowercase, to_lowercase};
use crate::util::strs::{chars_of, seq_contains, vec_contains};

verus! {

/// Direction of a stanza.
#[derive(Debug, Clone, PartialEq, Eq, Structural)]
pub enum StanzaDirection {
    Sent,
    Received,
}

/// A logged stanza.
#[derive(Debug, Clone)]
pub struct StanzaEntry {
    pub direction: StanzaDirection,
    pub xml: String,
    /// Unix timestamp in milliseconds.
    pub timestamp_ms: u64,
}

/// The value of a logged stanza.
pub struct EntryView {
    pub direction: StanzaDirection,
    pub xml: Seq<char>,
    pub timestamp_ms: u64,
}

impl View for StanzaEntry {
    type V = EntryView;

    open spec fn view(&self) -> EntryView {
        EntryView { direction: self.direction, xml: self.xml@, timestamp_ms: self.timestamp_ms }
    }
}

/// The log after appending `e` to `log` with capacity `cap`.
pub open spec fn pushed(log: Seq<EntryView>, cap: nat, e: EntryView) -> Seq<EntryView> {
    if log.len() == cap && log.len() > 0 {
        log.drop_first().push(e)
    } else {
        log.push(e)
    }
}

/// Whether an entry matches a search query, ignoring case.
pub open spec fn entry_matches(e: EntryView, query: Seq<char>) -> bool {
    seq_contains(lowercase(e.xml), lowercase(query))
}

pub struct XmppConsole {
    entries: VecDeque<StanzaEntry>,
    max_entries: usize,
}

impl XmppConsole {
    /// The entries, oldest first.
    pub closed spec fn log(&self) -> Seq<EntryView> {
        Seq::new(self.entries@.len(), |i: int| self.entries@[i]@)
    }

    pub closed spec fn capacity(&self) -> nat {
        self.max_entries as nat
    }

    /// An empty console holding at most `max_entries` entries.
    pub fn new(max_entries: usize) -> (r: Self)
        ensures
            r.log() == Seq::<EntryView>::empty(),
            r.capacity() == max_entries,
    {
        let r = XmppConsole { entries: VecDeque::new(), max_entries };
        assert(r.log() =~= Seq::<EntryView>::empty());
        r
    }

    /// Logs a stanza that was sent.
    pub fn push_sent(&mut self, xml: &str, timestamp_ms: u64)
        ensures
            final(self).log() == pushed(old(self).log(), old(self).capacity(), EntryView { direction: StanzaDirection::Sent, xml: xml@, timestamp_ms }),
            final(self).capacity() == old(self).capacity(),
    {
        self.push(StanzaDirection::Sent, xml, timestamp_ms);
    }

    /// Logs a stanza that was received.
    pub fn push_received(&mut self, xml: &str, timestamp_ms: u64)
        ensures
            final(self).log() == pushed(old(self).log(), old(self).capacity(), EntryView { direction: StanzaDirection::Received, xml: xml@, timestamp_ms }),
            final(self).capacity() == old(self).capacity(),
    {
        self.push(StanzaDirection::Received, xml, timestamp_ms);
    }

    /// The entries in insertion order, oldest first.
    pub fn entries(&self) -> (r: Vec<&StanzaEntry>)
        ensures
            r@.len() == self.log().len(),
            forall|i: int| 0 <= i < r@.len() ==> #[trigger] r@[i]@ == self.log()[i],
    {
        let mut r: Vec<&StanzaEntry> = Vec::new();
        let mut i: usize = 0;
        while i < self.entries.len()
            invariant
                i <= self.entries@.len(),
                r@.len() == i,
                forall|j: int| 0 <= j < i ==> #[trigger] r@[j]@ == self.entries@[j]@,
            decreases self.entries@.len() - i,
        {
            r.push(&self.entries[i]);
            i += 1;
        }
        r
    }

    /// Number of entries stored.
    pub fn len(&self) -> (n: usize)
        ensures
            n == self.log().len(),
    {
        self.entries.len()
    }

    /// Whether no entry is stored.
    pub fn is_empty(&self) -> (b: bool)
        ensures
            b == (self.log().len() == 0),
    {
        self.entries.len() == 0
    }

    /// Removes every entry.
    pub fn clear(&mut self)
        ensures
            final(self).log() == Seq::<EntryView>::empty(),
            final(self).capacity() == old(self).capacity(),
    {
        self.entries = VecDeque::new();
        assert(self.log() =~= Seq::<EntryView>::empty());
    }

    /// The entries whose XML contains `query`, ignoring case, oldest first.
    pub fn search(&self, query: &str) -> (r: Vec<&StanzaEntry>)
        ensures
            r@.map_values(|e: &StanzaEntry| e@) == self.log().filter(|e: EntryView| entry_matches(e, query@)),
    {
        let q = chars_of(to_lowercase(query).as_str());
        let ghost pred = |e: EntryView| entry_matches(e, query@);
        let mut r: Vec<&StanzaEntry> = Vec::new();
        let mut i: usize = 0;
        while i < self.entries.len()
            invariant
                i <= self.entries@.len(),
                q@ == lowercase(query@),
                pred == (|e: EntryView| entry_matches(e, query@)),
                r@.map_values(|e: &StanzaEntry| e@) == self.log().take(i as int).filter(pred),
            decreases self.entries@.len() - i,
        {
            let x = chars_of(to_lowercase(self.entries[i].xml.as_str()).as_str());
            let hit = vec_contains(&x, &q);
            proof {
                reveal(Seq::filter);
                assert(self.log().take(i + 1).drop_last() =~= self.log().take(i as int));
                assert(self.log().take(i + 1).last() == self.entries@[i as int]@);
                assert(hit == pred(self.entries@[i as int]@));
            }
            let ghost before = r@;
            if hit {
                r.push(&self.entries[i]);
                assert(r@.map_values(|e: &StanzaEntry| e@) =~= before.map_values(|e: &StanzaEntry| e@).push(self.entries@[i as int]@));
            }
            i += 1;
        }
        assert(self.log().take(self.entries@.len() as int) =~= self.log());
        r
    }

    fn push(&mut self, direction: StanzaDirection, xml: &str, timestamp_ms: u64)
        ensures
            final(self).log() == pushed(old(self).log(), old(self).capacity(), EntryView { direction, xml: xml@, timestamp_ms }),
            final(self).capacity() == old(self).capacity(),
    {
        let ghost before = self.log();
        let mut q: VecDeque<StanzaEntry> = VecDeque::new();
        std::mem::swap(&mut q, &mut self.entries);
        let ghost qv = q@;
        if q.len() == self.max_entries && q.len() > 0 {
            q.pop_front();
        }
        let e = StanzaEntry { direction, xml: xml.to_owned(), timestamp_ms };
        q.push_back(e);
        proof {
            let n = Seq::new(q@.len(), |i: int| q@[i]@);
            let expected = pushed(before, self.max_entries as nat, EntryView { direction, xml: xml@, timestamp_ms });
            assert(n =~= expected);
        }
        self.entries = q;
    }
}

/// A console never holds more entries than its capacity once it is at least
/// one, and the newest entry is always last.
pub proof fn law_console_bounded(log: Seq<EntryView>, cap: nat, e: EntryView)
    requires
        log.len() <= cap,
        cap > 0,
    ensures
        pushed(log, cap, e).len() <= cap,
        pushed(log, cap, e).last() == e,
        log.len() < cap ==> pushed(log, cap, e) == log.push(e),
        log.len() == cap ==> pushed(log, cap, e) == log.drop_first().push(e),
{
}

/// An operation on the console: a push of an entry (sent or received), or
/// a clear.
pub enum ConsoleOp {
    Push(EntryView),
    Clear,
}

/// The log after `ops`, in order, starting from `log`, with capacity `cap`.
pub open spec fn replay(log: Seq<EntryView>, cap: nat, ops: Seq<ConsoleOp>) -> Seq<EntryView>
    decreases ops.len(),
{
    if ops.len() == 0 {
        log
    } else {
        let before = replay(log, cap, ops.drop_last());
        match ops.last() {
            ConsoleOp::Push(e) => pushed(before, cap, e),
            ConsoleOp::Clear => Seq::empty(),
        }
    }
}

/// Whatever pushes and clears a console of capacity at least one goes
/// through from empty, it never holds more entries than its capacity.
pub proof fn law_console_never_exceeds(cap: nat, ops: Seq<ConsoleOp>)
    requires
        cap > 0,
    ensures
        replay(Seq::empty(), cap, ops).len() <= cap,
    decreases ops.len(),
{
    if ops.len() > 0 {
        law_console_never_exceeds(cap, ops.drop_last());
    }
}

} // verus!
