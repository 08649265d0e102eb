//! Which accounts have an engine running, and which account is in focus.
//!
//! The manager holds the decisions of multi-account operation: a second start
//! of a running account is a no-op, a stop forgets the engine and leaves the
//! focus empty when it was on that account, and commands go only to accounts
//! with an engine. The engines themselves, their tasks and channels, are run
//! by the application, which acts on what these methods return.
use vstd::prelude::*;
use crate::util::maps::StrSet;
use crate::util::strs::str_eq;
use super::AccountId;

verus! {

/// The accounts with a running engine, and the account in focus.
pub struct MultiEngineManager {
    running: StrSet,
    active_account: AccountId,
}

impl MultiEngineManager {
    /// The accounts (by JID) whose engine runs.
    pub closed spec fn running(&self) -> Set<Seq<char>> {
        self.running.view()
    }

    /// The JID of the account in focus; empty after that account was stopped.
    pub closed spec fn active(&self) -> Seq<char> {
        self.active_account.0@
    }

    /// A manager with no engines and `initial_active` in focus.
    pub fn new(initial_active: AccountId) -> (r: Self)
        ensures
            r.running() == Set::<Seq<char>>::empty(),
            r.active() == initial_active.0@,
    {
        MultiEngineManager { running: StrSet::new(), active_account: initial_active }
    }

    /// Registers an engine for the account `jid`. Returns whether one must be
    /// started: `false` when one already runs for it, which is left running.
    pub fn start_account(&mut self, jid: &str) -> (started: bool)
        ensures
            started == !old(self).running().contains(jid@),
            final(self).running() == old(self).running().insert(jid@),
            final(self).active() == old(self).active(),
    {
        if self.running.contains(jid) {
            proof {
                assert(old(self).running().insert(jid@) =~= old(self).running());
            }
            return false;
        }
        self.running.insert(jid.to_owned());
        true
    }

    /// Forgets the engine of `id`. Returns whether one ran, which is then to
    /// be told to disconnect. When `id` was in focus, the focus becomes the
    /// empty account.
    pub fn stop_account(&mut self, id: &AccountId) -> (stopped: bool)
        ensures
            stopped == old(self).running().contains(id.0@),
            final(self).running() == old(self).running().remove(id.0@),
            final(self).active() == (if old(self).active() == id.0@ {
                Seq::<char>::empty()
            } else {
                old(self).active()
            }),
    {
        let stopped = self.running.contains(id.0.as_str());
        self.running.remove(id.0.as_str());
        if str_eq(self.active_account.0.as_str(), id.0.as_str()) {
            self.active_account = AccountId::new(String::new());
        }
        stopped
    }

    /// Whether a command for the account in focus has an engine to go to.
    pub fn send_to_active(&self) -> (b: bool)
        ensures
            b == self.running().contains(self.active()),
    {
        self.running.contains(self.active_account.0.as_str())
    }

    /// Whether a command for `id` has an engine to go to.
    pub fn send_to(&self, id: &AccountId) -> (b: bool)
        ensures
            b == self.running().contains(id.0@),
    {
        self.running.contains(id.0.as_str())
    }

    /// Puts `id` in focus.
    pub fn switch_active(&mut self, id: AccountId)
        ensures
            final(self).active() == id.0@,
            final(self).running() == old(self).running(),
    {
        self.active_account = id;
    }

    /// The account in focus.
    pub fn active_account(&self) -> (r: &AccountId)
        ensures
            r.0@ == self.active(),
    {
        &self.active_account
    }

    /// Whether an engine runs for `id`.
    pub fn is_running(&self, id: &AccountId) -> (b: bool)
        ensures
            b == self.running().contains(id.0@),
    {
        self.running.contains(id.0.as_str())
    }

    /// The number of running engines.
    pub fn engine_count(&self) -> (n: usize)
        ensures
            n == self.running().len(),
    {
        self.running.len()
    }
}

} // verus!
