//! Lifecycle of the local TCP proxy, with a fallback to WebSocket after
//! three consecutive start failures.
use vstd::prelude::*;

verus! {

/// Where the proxy stands.
#[derive(Debug, Clone, PartialEq)]
pub enum ProxyState {
    Stopped,
    Starting,
    Running,
    Stopping,
    Failed(String),
}

/// The transport that is active, or will be tried next.
#[derive(Debug, Clone, PartialEq, Eq, Structural)]
pub enum TransportKind {
    TcpProxy,
    WebSocket,
}

/// Number of consecutive failures after which the WebSocket transport is used.
pub const MAX_TCP_FAILURES: u32 = 3;

pub struct ProxyLifecycle {
    state: ProxyState,
    transport: TransportKind,
    tcp_failures: u32,
    start_timeout_ms: u64,
    elapsed_ms: u64,
}

impl ProxyLifecycle {
    pub closed spec fn spec_state(&self) -> ProxyState {
        self.state
    }

    pub closed spec fn spec_transport(&self) -> TransportKind {
        self.transport
    }

    pub closed spec fn spec_failures(&self) -> u32 {
        self.tcp_failures
    }

    pub closed spec fn spec_timeout(&self) -> u64 {
        self.start_timeout_ms
    }

    /// A stopped lifecycle that will try the TCP proxy first.
    pub fn new(start_timeout_ms: u64) -> (r: Self)
        ensures
            r.spec_state() == ProxyState::Stopped,
            r.spec_transport() == TransportKind::TcpProxy,
            r.spec_failures() == 0,
            r.spec_timeout() == start_timeout_ms,
            r.model() == (ProxyModel { state: ProxyState::Stopped, transport: TransportKind::TcpProxy, failures: 0 }),
    {
        ProxyLifecycle {
            state: ProxyState::Stopped,
            transport: TransportKind::TcpProxy,
            tcp_failures: 0,
            start_timeout_ms,
            elapsed_ms: 0,
        }
    }

    /// Requests a start: from any state but `Starting` and `Running` the
    /// lifecycle becomes `Starting`; from those two it is refused.
    pub fn start(&mut self) -> (r: Result<(), String>)
        ensures
            (old(self).spec_state() is Starting || old(self).spec_state() is Running) <==> r is Err,
            r is Err ==> final(self).spec_state() == old(self).spec_state(),
            r is Ok ==> final(self).spec_state() == ProxyState::Starting,
            final(self).spec_transport() == old(self).spec_transport(),
            final(self).spec_failures() == old(self).spec_failures(),
            final(self).spec_timeout() == old(self).spec_timeout(),
            final(self).model() == after_start(old(self).model()),
    {
        match &self.state {
            ProxyState::Starting => Err("already starting".to_owned()),
            ProxyState::Running => Err("already running".to_owned()),
            _ => {
                self.elapsed_ms = 0;
                self.state = ProxyState::Starting;
                Ok(())
            },
        }
    }

    /// Reports that the proxy came up: `Starting` becomes `Running`.
    pub fn on_started(&mut self)
        ensures
            old(self).spec_state() is Starting ==> final(self).spec_state() == ProxyState::Running,
            !(old(self).spec_state() is Starting) ==> final(self).spec_state() == old(self).spec_state(),
            final(self).model() == after_started(old(self).model()),
            final(self).spec_transport() == old(self).spec_transport(),
            final(self).spec_failures() == old(self).spec_failures(),
            final(self).spec_timeout() == old(self).spec_timeout(),
    {
        if let ProxyState::Starting = self.state {
            self.state = ProxyState::Running;
        }
    }

    /// Reports a start failure. The third consecutive failure (and any later
    /// one) switches to WebSocket and resets to `Stopped`; an earlier one
    /// leaves the lifecycle `Failed` with the reason.
    pub fn on_start_failed(&mut self, reason: String)
        requires
            old(self).spec_failures() < u32::MAX,
        ensures
            final(self).spec_failures() == old(self).spec_failures() + 1,
            final(self).spec_failures() >= MAX_TCP_FAILURES ==> final(self).spec_transport() == TransportKind::WebSocket
                && final(self).spec_state() == ProxyState::Stopped,
            final(self).spec_failures() < MAX_TCP_FAILURES ==> final(self).spec_transport() == old(self).spec_transport()
                && final(self).spec_state() == ProxyState::Failed(reason),
            final(self).spec_timeout() == old(self).spec_timeout(),
            final(self).model() == after_failure(old(self).model(), reason),
    {
        self.tcp_failures = self.tcp_failures + 1;
        if self.tcp_failures >= MAX_TCP_FAILURES {
            self.transport = TransportKind::WebSocket;
            self.state = ProxyState::Stopped;
        } else {
            self.state = ProxyState::Failed(reason);
        }
    }

    /// Advances the clock to `elapsed_ms` since the start request. While
    /// `Starting`, a time past the budget counts as a start failure
    /// ("start timeout") and `true` is returned.
    pub fn tick(&mut self, elapsed_ms: u64) -> (fired: bool)
        requires
            old(self).spec_failures() < u32::MAX,
        ensures
            fired == (old(self).spec_state() is Starting && elapsed_ms > old(self).spec_timeout()),
            !fired ==> final(self).spec_state() == old(self).spec_state()
                && final(self).spec_transport() == old(self).spec_transport()
                && final(self).spec_failures() == old(self).spec_failures(),
            fired ==> final(self).spec_failures() == old(self).spec_failures() + 1,
            fired && final(self).spec_failures() >= MAX_TCP_FAILURES ==> final(self).spec_transport() == TransportKind::WebSocket
                && final(self).spec_state() == ProxyState::Stopped,
            fired && final(self).spec_failures() < MAX_TCP_FAILURES ==> final(self).spec_transport() == old(self).spec_transport()
                && (final(self).spec_state() matches ProxyState::Failed(why) && why@ == "start timeout"@),
            !fired ==> final(self).model() == old(self).model(),
            fired ==> exists|why: String| why@ == "start timeout"@ && final(self).model() == #[trigger] after_failure(old(self).model(), why),
            final(self).spec_timeout() == old(self).spec_timeout(),
    {
        self.elapsed_ms = elapsed_ms;
        let starting = match self.state {
            ProxyState::Starting => true,
            _ => false,
        };
        if starting && self.elapsed_ms > self.start_timeout_ms {
            let why = "start timeout".to_owned();
            let ghost w = why;
            self.on_start_failed(why);
            assert(w@ == "start timeout"@ && self.model() == after_failure(old(self).model(), w));
            true
        } else {
            false
        }
    }

    /// Graceful stop: `Running` becomes `Stopping`.
    pub fn stop(&mut self)
        ensures
            old(self).spec_state() is Running ==> final(self).spec_state() == ProxyState::Stopping,
            !(old(self).spec_state() is Running) ==> final(self).spec_state() == old(self).spec_state(),
            final(self).model() == after_stop(old(self).model()),
            final(self).spec_transport() == old(self).spec_transport(),
            final(self).spec_failures() == old(self).spec_failures(),
            final(self).spec_timeout() == old(self).spec_timeout(),
    {
        if let ProxyState::Running = self.state {
            self.state = ProxyState::Stopping;
        }
    }

    /// Reports that the stop completed: `Stopping` becomes `Stopped`.
    pub fn on_stopped(&mut self)
        ensures
            old(self).spec_state() is Stopping ==> final(self).spec_state() == ProxyState::Stopped,
            !(old(self).spec_state() is Stopping) ==> final(self).spec_state() == old(self).spec_state(),
            final(self).model() == after_stopped(old(self).model()),
            final(self).spec_transport() == old(self).spec_transport(),
            final(self).spec_failures() == old(self).spec_failures(),
            final(self).spec_timeout() == old(self).spec_timeout(),
    {
        if let ProxyState::Stopping = self.state {
            self.state = ProxyState::Stopped;
        }
    }

    pub fn state(&self) -> (r: &ProxyState)
        ensures
            *r == self.spec_state(),
    {
        &self.state
    }

    pub fn transport(&self) -> (r: TransportKind)
        ensures
            r == self.spec_transport(),
    {
        match self.transport {
            TransportKind::TcpProxy => TransportKind::TcpProxy,
            TransportKind::WebSocket => TransportKind::WebSocket,
        }
    }

    pub fn tcp_failures(&self) -> (r: u32)
        ensures
            r == self.spec_failures(),
    {
        self.tcp_failures
    }
}

/// The lifecycle's state, transport and failure count.
pub struct ProxyModel {
    pub state: ProxyState,
    pub transport: TransportKind,
    pub failures: int,
}

impl ProxyLifecycle {
    /// The state, transport and failure count that the getters return.
    pub open spec fn model(&self) -> ProxyModel {
        ProxyModel { state: self.spec_state(), transport: self.spec_transport(), failures: self.spec_failures() as int }
    }
}

/// What `start` does to the model.
pub open spec fn after_start(m: ProxyModel) -> ProxyModel {
    if m.state is Starting || m.state is Running {
        m
    } else {
        ProxyModel { state: ProxyState::Starting, ..m }
    }
}

/// What `on_start_failed` does to the model.
pub open spec fn after_failure(m: ProxyModel, reason: String) -> ProxyModel {
    if m.failures + 1 >= MAX_TCP_FAILURES {
        ProxyModel { state: ProxyState::Stopped, transport: TransportKind::WebSocket, failures: m.failures + 1 }
    } else {
        ProxyModel { state: ProxyState::Failed(reason), transport: m.transport, failures: m.failures + 1 }
    }
}

/// Starting and failing three times from a fresh lifecycle leaves it stopped
/// on the WebSocket transport with three failures counted; after one or two
/// such rounds it is still on the TCP proxy.
pub proof fn law_three_failures_fall_back(r1: String, r2: String, r3: String)
    ensures
        ({
            let m0 = ProxyModel { state: ProxyState::Stopped, transport: TransportKind::TcpProxy, failures: 0 };
            let m1 = after_failure(after_start(m0), r1);
            let m2 = after_failure(after_start(m1), r2);
            let m3 = after_failure(after_start(m2), r3);
            &&& m1.transport == TransportKind::TcpProxy
            &&& m2.transport == TransportKind::TcpProxy
            &&& m3.transport == TransportKind::WebSocket
            &&& m3.state == ProxyState::Stopped
            &&& m3.failures == 3
        }),
{
}

/// Once on WebSocket, the lifecycle never goes back to the TCP proxy.
pub proof fn law_websocket_is_final(m: ProxyModel, reason: String)
    requires
        m.transport == TransportKind::WebSocket,
    ensures
        after_start(m).transport == TransportKind::WebSocket,
        after_failure(m, reason).transport == TransportKind::WebSocket,
{
}

/// What `on_started` does to the model.
pub open spec fn after_started(m: ProxyModel) -> ProxyModel {
    if m.state is Starting {
        ProxyModel { state: ProxyState::Running, ..m }
    } else {
        m
    }
}

/// What `stop` does to the model.
pub open spec fn after_stop(m: ProxyModel) -> ProxyModel {
    if m.state is Running {
        ProxyModel { state: ProxyState::Stopping, ..m }
    } else {
        m
    }
}

/// What `on_stopped` does to the model.
pub open spec fn after_stopped(m: ProxyModel) -> ProxyModel {
    if m.state is Stopping {
        ProxyModel { state: ProxyState::Stopped, ..m }
    } else {
        m
    }
}

/// The invariant of every lifecycle: WebSocket is used exactly when three
/// or more start failures were counted, and a `Failed` lifecycle has one or
/// two failures behind it and is still on the TCP proxy.
pub open spec fn proxy_consistent(m: ProxyModel) -> bool {
    &&& m.failures >= 0
    &&& (m.transport == TransportKind::WebSocket <==> m.failures >= MAX_TCP_FAILURES)
    &&& (m.state is Failed ==> 1 <= m.failures <= 2 && m.transport == TransportKind::TcpProxy)
}

/// A new lifecycle is consistent, and every operation keeps it so; so every
/// lifecycle reached from `new` by any sequence of `start`, `on_started`,
/// `on_start_failed`, `tick`, `stop` and `on_stopped` is consistent.
pub proof fn law_lifecycle_consistent(m: ProxyModel, reason: String)
    ensures
        proxy_consistent(ProxyModel { state: ProxyState::Stopped, transport: TransportKind::TcpProxy, failures: 0 }),
        proxy_consistent(m) ==> proxy_consistent(after_start(m)),
        proxy_consistent(m) ==> proxy_consistent(after_started(m)),
        proxy_consistent(m) ==> proxy_consistent(after_failure(m, reason)),
        proxy_consistent(m) ==> proxy_consistent(after_stop(m)),
        proxy_consistent(m) ==> proxy_consistent(after_stopped(m)),
{
}

} // verus!
