//! Stream Management (XEP-0198): counting stanzas both ways, keeping what
//! the server has not acknowledged yet, and coalescing our own `<a/>`
//! acknowledgements.
use vstd::prelude::*;
use std::collections::VecDeque;
use std::time::Instant;
use crate::util::strs::{dec_str, u64_to_string};
use crate::util::xml::{Element, ElementView, elem};

verus! {

pub const NS_SM: &'static str = "urn:xmpp:sm:3";

/// The coalescing window between two acknowledgements, in milliseconds.
pub const ACK_WINDOW_MS: u128 = 250;

/// More unacknowledged stanzas than this means the stream has drifted.
pub const DESYNC_LIMIT: u32 = 50;

#[verifier::external_type_specification]
#[verifier::external_body]
pub struct ExInstant(std::time::Instant);

/// `std::time::Instant::now`: a reading of the monotonic clock.
#[verifier::external_body]
fn instant_now() -> Instant {
    Instant::now()
}

/// `Instant::elapsed` in whole milliseconds (`Duration::as_millis`). It
/// depends on the clock, so nothing is stated of it.
#[verifier::external_body]
fn millis_since(t: &Instant) -> u128 {
    t.elapsed().as_millis()
}

/// The `<a h='…'/>` acknowledgement carrying inbound count `h`.
pub open spec fn ack_element(h: u32) -> ElementView {
    elem("a"@, NS_SM@).with_attr("h"@, dec_str(h as nat))
}

pub open spec fn element_views(s: Seq<Element>) -> Seq<ElementView> {
    Seq::new(s.len(), |i: int| s[i]@)
}

/// The counters and queue of a stream.
pub struct StreamMgmtView {
    pub stanzas_sent: u32,
    pub stanzas_acked: u32,
    pub server_h: u32,
    pub h: u32,
    pub unacked: Seq<ElementView>,
    pub pending_ack: bool,
    pub has_sent_ack: bool,
}

pub struct StreamMgmt {
    stanzas_sent: u32,
    stanzas_acked: u32,
    server_h: u32,
    h: u32,
    unacked: VecDeque<Element>,
    last_ack_sent_at: Option<Instant>,
    pending_ack: bool,
}

impl View for StreamMgmt {
    type V = StreamMgmtView;

    closed spec fn view(&self) -> StreamMgmtView {
        StreamMgmtView {
            stanzas_sent: self.stanzas_sent,
            stanzas_acked: self.stanzas_acked,
            server_h: self.server_h,
            h: self.h,
            unacked: element_views(self.unacked@),
            pending_ack: self.pending_ack,
            has_sent_ack: self.last_ack_sent_at is Some,
        }
    }
}

/// The fresh tracker: all counters at zero, nothing queued or due.
pub open spec fn fresh_stream() -> StreamMgmtView {
    StreamMgmtView {
        stanzas_sent: 0,
        stanzas_acked: 0,
        server_h: 0,
        h: 0,
        unacked: Seq::empty(),
        pending_ack: false,
        has_sent_ack: false,
    }
}

/// How many queued stanzas an acknowledgement of `h` releases.
pub open spec fn released(acked: u32, h: u32, queued: nat) -> nat {
    let newly = if h > acked { (h - acked) as nat } else { 0 };
    if newly < queued { newly } else { queued }
}

/// The tracker after a stanza `el` went out.
pub open spec fn after_sent(s: StreamMgmtView, el: ElementView) -> StreamMgmtView {
    StreamMgmtView { stanzas_sent: (s.stanzas_sent + 1) as u32, unacked: s.unacked.push(el), ..s }
}

/// The tracker after the server acknowledged `h` stanzas.
pub open spec fn after_ack(s: StreamMgmtView, h: u32) -> StreamMgmtView {
    StreamMgmtView {
        stanzas_acked: h,
        server_h: h,
        unacked: s.unacked.skip(released(s.stanzas_acked, h, s.unacked.len()) as int),
        ..s
    }
}

/// The queue holds exactly the stanzas sent and not yet acknowledged.
pub open spec fn queue_consistent(s: StreamMgmtView) -> bool {
    s.stanzas_acked <= s.stanzas_sent && s.unacked.len() == s.stanzas_sent - s.stanzas_acked
}

impl StreamMgmt {
    pub fn new() -> (r: Self)
        ensures
            r@ == fresh_stream(),
    {
        let r = StreamMgmt {
            stanzas_sent: 0,
            stanzas_acked: 0,
            server_h: 0,
            h: 0,
            unacked: VecDeque::new(),
            last_ack_sent_at: None,
            pending_ack: false,
        };
        assert(r@.unacked =~= Seq::<ElementView>::empty());
        r
    }

    /// Records a stanza sent to the server and queues it until acknowledged.
    pub fn on_stanza_sent(&mut self, el: Element)
        requires
            old(self)@.stanzas_sent < u32::MAX,
        ensures
            final(self)@ == after_sent(old(self)@, el@),
    {
        let ghost before = self.unacked@;
        self.stanzas_sent = self.stanzas_sent + 1;
        self.unacked.push_back(el);
        assert(element_views(self.unacked@) =~= element_views(before).push(el@));
    }

    /// Records a stanza received from the server; an acknowledgement is now due.
    pub fn on_stanza_received(&mut self)
        requires
            old(self)@.h < u32::MAX,
        ensures
            final(self)@ == (StreamMgmtView { h: (old(self)@.h + 1) as u32, pending_ack: true, ..old(self)@ }),
    {
        self.h = self.h + 1;
        self.pending_ack = true;
    }

    /// Takes in the server's `<a h='…'/>`: the stanzas it covers leave the
    /// front of the queue, and `h` becomes the acknowledged count.
    pub fn on_ack_received(&mut self, h: u32)
        ensures
            final(self)@ == after_ack(old(self)@, h),
    {
        let to_drain: u32 = if h > self.stanzas_acked { h - self.stanzas_acked } else { 0 };
        let len = self.unacked.len();
        let drain_count: usize = if (to_drain as u64) < (len as u64) { to_drain as usize } else { len };
        let mut queue: VecDeque<Element> = VecDeque::new();
        std::mem::swap(&mut queue, &mut self.unacked);
        let ghost start = queue@;
        let mut i: usize = 0;
        while i < drain_count
            invariant
                i <= drain_count <= start.len(),
                queue@ == start.skip(i as int),
            decreases drain_count - i,
        {
            let _ = queue.pop_front();
            i += 1;
            assert(queue@ =~= start.skip(i as int));
        }
        self.unacked = queue;
        self.stanzas_acked = h;
        self.server_h = h;
        proof {
            assert(drain_count == released(old(self)@.stanzas_acked, h, start.len()));
            assert(element_views(start.skip(drain_count as int)) =~= element_views(start).skip(drain_count as int));
        }
    }

    /// The `<a/>` acknowledgement for the inbound count so far.
    pub fn build_ack(&self) -> (r: Element)
        ensures
            r@ == ack_element(self@.h),
    {
        Element::new("a", NS_SM).with_attr("h", u64_to_string(self.h as u64).as_str())
    }

    /// The `<r/>` request for the server's acknowledgement.
    pub fn build_request(&self) -> (r: Element)
        ensures
            r@ == elem("r"@, NS_SM@),
    {
        Element::new("r", NS_SM)
    }

    /// Sends the due acknowledgement now: the ack, with nothing due afterwards;
    /// nothing when none was due.
    pub fn flush_ack(&mut self) -> (r: Option<Element>)
        ensures
            old(self)@.pending_ack ==> (r matches Some(a) && a@ == ack_element(old(self)@.h)
                && final(self)@ == (StreamMgmtView { pending_ack: false, has_sent_ack: true, ..old(self)@ })),
            !old(self)@.pending_ack ==> r is None && final(self)@ == old(self)@,
    {
        if self.pending_ack {
            let ack = self.build_ack();
            self.last_ack_sent_at = Some(instant_now());
            self.pending_ack = false;
            Some(ack)
        } else {
            None
        }
    }

    /// The coalescing decision once the clock has been read: an ack goes out
    /// when one is due and `window_elapsed` (no ack was sent yet, or the last
    /// one is at least the window old).
    pub fn send_ack_if_window(&mut self, window_elapsed: bool) -> (r: Option<Element>)
        ensures
            (old(self)@.pending_ack && window_elapsed) ==> (r matches Some(a) && a@ == ack_element(old(self)@.h)
                && final(self)@ == (StreamMgmtView { pending_ack: false, has_sent_ack: true, ..old(self)@ })),
            !(old(self)@.pending_ack && window_elapsed) ==> r is None && final(self)@ == old(self)@,
    {
        if self.pending_ack && window_elapsed {
            self.flush_ack()
        } else {
            None
        }
    }

    /// The coalesced acknowledgement: when one is due and no ack was sent
    /// within the last window. The first ack of a stream is never held back;
    /// later ones go out or wait according to the clock.
    pub fn maybe_send_ack(&mut self) -> (r: Option<Element>)
        ensures
            !old(self)@.pending_ack ==> r is None && final(self)@ == old(self)@,
            (old(self)@.pending_ack && !old(self)@.has_sent_ack) ==> r is Some,
            r matches Some(a) ==> a@ == ack_element(old(self)@.h)
                && final(self)@ == (StreamMgmtView { pending_ack: false, has_sent_ack: true, ..old(self)@ }),
            r is None ==> final(self)@ == old(self)@,
    {
        if !self.pending_ack {
            return None;
        }
        let window_elapsed = match &self.last_ack_sent_at {
            None => true,
            Some(t) => millis_since(t) >= ACK_WINDOW_MS,
        };
        self.send_ack_if_window(window_elapsed)
    }

    /// Whether more than the limit of sent stanzas await acknowledgement.
    pub fn has_queue_desync(&self) -> (b: bool)
        ensures
            b == (self@.stanzas_sent > self@.stanzas_acked && self@.stanzas_sent - self@.stanzas_acked > DESYNC_LIMIT),
    {
        self.stanzas_sent > self.stanzas_acked && self.stanzas_sent - self.stanzas_acked > DESYNC_LIMIT
    }

    /// Number of queued stanzas.
    pub fn pending_count(&self) -> (n: usize)
        ensures
            n == self@.unacked.len(),
    {
        self.unacked.len()
    }

    /// The inbound count.
    pub fn h(&self) -> (r: u32)
        ensures
            r == self@.h,
    {
        self.h
    }

    /// The outbound count.
    pub fn stanzas_sent(&self) -> (r: u32)
        ensures
            r == self@.stanzas_sent,
    {
        self.stanzas_sent
    }

    /// The count the server last acknowledged.
    pub fn stanzas_acked(&self) -> (r: u32)
        ensures
            r == self@.stanzas_acked,
    {
        self.stanzas_acked
    }

    /// The `h` of the server's last acknowledgement.
    pub fn server_h(&self) -> (r: u32)
        ensures
            r == self@.server_h,
    {
        self.server_h
    }

    /// Whether an acknowledgement is due.
    pub fn has_pending_ack(&self) -> (b: bool)
        ensures
            b == self@.pending_ack,
    {
        self.pending_ack
    }

    /// Back to the fresh state, for a new session.
    pub fn reset(&mut self)
        ensures
            final(self)@ == fresh_stream(),
    {
        self.stanzas_sent = 0;
        self.stanzas_acked = 0;
        self.server_h = 0;
        self.h = 0;
        self.unacked.clear();
        self.last_ack_sent_at = None;
        self.pending_ack = false;
        assert(self@.unacked =~= Seq::<ElementView>::empty());
    }

    /// The stanzas awaiting acknowledgement, oldest first.
    pub fn unacked_stanzas(&self) -> (r: &VecDeque<Element>)
        ensures
            element_views(r@) == self@.unacked,
    {
        &self.unacked
    }
}

/// A fresh stream's queue is consistent.
pub proof fn law_fresh_consistent()
    ensures
        queue_consistent(fresh_stream()),
{
}

/// Sending a stanza keeps the queue equal to what is unacknowledged.
pub proof fn law_sent_keeps_consistent(s: StreamMgmtView, el: ElementView)
    requires
        queue_consistent(s),
        s.stanzas_sent < u32::MAX,
    ensures
        queue_consistent(after_sent(s, el)),
{
}

/// An acknowledgement that neither goes back nor past what was sent keeps
/// the queue equal to what is unacknowledged; acknowledging everything
/// empties it.
pub proof fn law_ack_keeps_consistent(s: StreamMgmtView, h: u32)
    requires
        queue_consistent(s),
        s.stanzas_acked <= h <= s.stanzas_sent,
    ensures
        queue_consistent(after_ack(s, h)),
        h == s.stanzas_sent ==> after_ack(s, h).unacked.len() == 0,
{
}

} // verus!
