//! Presence state machine: the user's chosen status with an automatic
//! away / extended-away layer driven by idle and sleep detection.
//!
//! Do-not-disturb is never overridden by idle or sleep; the status held
//! before the first automatic step is what activity restores; reconnecting
//! keeps the automatic layer.
use vstd::prelude::*;
use crate::util::xml::{Element, ElementView, elem};

verus! {

pub const NS_CLIENT: &'static str = "jabber:client";

/// The presence values visible to contacts and to the server.
#[derive(Debug, Clone, PartialEq, Eq, Structural)]
pub enum PresenceStatus {
    Available,
    Away,
    ExtendedAway,
    DoNotDisturb,
    Offline,
}

/// The automatic idle layer on top of the user's status.
#[derive(Debug, Clone, PartialEq, Eq, Structural)]
pub enum AutoState {
    Active,
    AutoAway,
    AutoXa,
}

/// The machine's whole state.
pub struct PresenceModel {
    pub user_status: PresenceStatus,
    pub auto_state: AutoState,
    pub pre_auto_away_status: PresenceStatus,
    pub online: bool,
}

#[derive(Debug, Clone)]
pub struct PresenceMachine {
    user_status: PresenceStatus,
    auto_state: AutoState,
    pre_auto_away_status: PresenceStatus,
    online: bool,
}

pub open spec fn initial_model() -> PresenceModel {
    PresenceModel {
        user_status: PresenceStatus::Available,
        auto_state: AutoState::Active,
        pre_auto_away_status: PresenceStatus::Available,
        online: false,
    }
}

pub open spec fn set_user_status_spec(m: PresenceModel, s: PresenceStatus) -> PresenceModel {
    PresenceModel { user_status: s, pre_auto_away_status: s, auto_state: AutoState::Active, ..m }
}

pub open spec fn idle_spec(m: PresenceModel) -> PresenceModel {
    if m.user_status == PresenceStatus::DoNotDisturb {
        m
    } else if m.auto_state == AutoState::Active {
        PresenceModel { pre_auto_away_status: m.user_status, auto_state: AutoState::AutoAway, ..m }
    } else {
        m
    }
}

pub open spec fn sleep_spec(m: PresenceModel) -> PresenceModel {
    if m.user_status == PresenceStatus::DoNotDisturb {
        m
    } else if m.auto_state == AutoState::Active {
        PresenceModel { pre_auto_away_status: m.user_status, auto_state: AutoState::AutoXa, ..m }
    } else {
        PresenceModel { auto_state: AutoState::AutoXa, ..m }
    }
}

pub open spec fn activity_spec(m: PresenceModel) -> PresenceModel {
    if m.auto_state != AutoState::Active {
        PresenceModel { user_status: m.pre_auto_away_status, auto_state: AutoState::Active, ..m }
    } else {
        m
    }
}

pub open spec fn effective_spec(m: PresenceModel) -> PresenceStatus {
    if !m.online {
        PresenceStatus::Offline
    } else if m.user_status == PresenceStatus::DoNotDisturb {
        PresenceStatus::DoNotDisturb
    } else {
        match m.auto_state {
            AutoState::Active => m.user_status,
            AutoState::AutoAway => PresenceStatus::Away,
            AutoState::AutoXa => PresenceStatus::ExtendedAway,
        }
    }
}

/// The `<show>` value of a status, when it has one.
pub open spec fn show_value(s: PresenceStatus) -> Option<Seq<char>> {
    match s {
        PresenceStatus::Away => Some("away"@),
        PresenceStatus::ExtendedAway => Some("xa"@),
        PresenceStatus::DoNotDisturb => Some("dnd"@),
        _ => None,
    }
}

/// The `<presence>` stanza announcing status `s`.
pub open spec fn presence_stanza(s: PresenceStatus) -> ElementView {
    match show_value(s) {
        Some(v) => elem("presence"@, NS_CLIENT@).with_child(elem("show"@, NS_CLIENT@).with_text(v)),
        None => elem("presence"@, NS_CLIENT@),
    }
}

fn copy_status(s: &PresenceStatus) -> (r: PresenceStatus)
    ensures
        r == *s,
{
    match s {
        PresenceStatus::Available => PresenceStatus::Available,
        PresenceStatus::Away => PresenceStatus::Away,
        PresenceStatus::ExtendedAway => PresenceStatus::ExtendedAway,
        PresenceStatus::DoNotDisturb => PresenceStatus::DoNotDisturb,
        PresenceStatus::Offline => PresenceStatus::Offline,
    }
}

fn is_dnd(s: &PresenceStatus) -> (r: bool)
    ensures
        r == (*s == PresenceStatus::DoNotDisturb),
{
    match s {
        PresenceStatus::DoNotDisturb => true,
        _ => false,
    }
}

fn is_active(a: &AutoState) -> (r: bool)
    ensures
        r == (*a == AutoState::Active),
{
    match a {
        AutoState::Active => true,
        _ => false,
    }
}

impl PresenceMachine {
    pub closed spec fn model(&self) -> PresenceModel {
        PresenceModel {
            user_status: self.user_status,
            auto_state: self.auto_state,
            pre_auto_away_status: self.pre_auto_away_status,
            online: self.online,
        }
    }

    /// A disconnected machine with the user available and no automatic step.
    pub fn new() -> (r: Self)
        ensures
            r.model() == initial_model(),
    {
        PresenceMachine {
            user_status: PresenceStatus::Available,
            auto_state: AutoState::Active,
            pre_auto_away_status: PresenceStatus::Available,
            online: false,
        }
    }

    /// The user explicitly sets a status; the automatic layer is reset.
    pub fn set_user_status(&mut self, status: PresenceStatus)
        ensures
            final(self).model() == set_user_status_spec(old(self).model(), status),
    {
        self.user_status = copy_status(&status);
        self.pre_auto_away_status = status;
        self.auto_state = AutoState::Active;
    }

    /// Idle detected: away, unless do-not-disturb or already further along.
    pub fn on_idle_detected(&mut self)
        ensures
            final(self).model() == idle_spec(old(self).model()),
    {
        if is_dnd(&self.user_status) {
            return;
        }
        if is_active(&self.auto_state) {
            self.pre_auto_away_status = copy_status(&self.user_status);
            self.auto_state = AutoState::AutoAway;
        }
    }

    /// Extended idle or sleep detected: extended away, unless do-not-disturb.
    pub fn on_sleep_detected(&mut self)
        ensures
            final(self).model() == sleep_spec(old(self).model()),
    {
        if is_dnd(&self.user_status) {
            return;
        }
        if is_active(&self.auto_state) {
            self.pre_auto_away_status = copy_status(&self.user_status);
        }
        self.auto_state = AutoState::AutoXa;
    }

    /// User activity: the status held before the automatic steps comes back.
    pub fn on_activity_detected(&mut self)
        ensures
            final(self).model() == activity_spec(old(self).model()),
    {
        if !is_active(&self.auto_state) {
            self.user_status = copy_status(&self.pre_auto_away_status);
            self.auto_state = AutoState::Active;
        }
    }

    /// Session connected; the automatic layer is kept.
    pub fn on_connected(&mut self)
        ensures
            final(self).model() == (PresenceModel { online: true, ..old(self).model() }),
    {
        self.online = true;
    }

    /// Session disconnected.
    pub fn on_disconnected(&mut self)
        ensures
            final(self).model() == (PresenceModel { online: false, ..old(self).model() }),
    {
        self.online = false;
    }

    /// The presence to broadcast.
    pub fn effective_status(&self) -> (r: PresenceStatus)
        ensures
            r == effective_spec(self.model()),
    {
        if !self.online {
            return PresenceStatus::Offline;
        }
        if is_dnd(&self.user_status) {
            return PresenceStatus::DoNotDisturb;
        }
        match self.auto_state {
            AutoState::Active => copy_status(&self.user_status),
            AutoState::AutoAway => PresenceStatus::Away,
            AutoState::AutoXa => PresenceStatus::ExtendedAway,
        }
    }

    /// The automatic layer.
    pub fn auto_state(&self) -> (r: AutoState)
        ensures
            r == self.model().auto_state,
    {
        match self.auto_state {
            AutoState::Active => AutoState::Active,
            AutoState::AutoAway => AutoState::AutoAway,
            AutoState::AutoXa => AutoState::AutoXa,
        }
    }

    /// The `<presence>` stanza to send, or `None` when offline.
    pub fn build_presence_stanza(&self) -> (r: Option<Element>)
        ensures
            effective_spec(self.model()) == PresenceStatus::Offline ==> r is None,
            effective_spec(self.model()) != PresenceStatus::Offline ==> (r matches Some(e) && e@ == presence_stanza(effective_spec(self.model()))),
    {
        let status = self.effective_status();
        let base = Element::new("presence", NS_CLIENT);
        match status {
            PresenceStatus::Offline => None,
            PresenceStatus::Available => Some(base),
            PresenceStatus::Away => Some(base.with_child(Element::new("show", NS_CLIENT).with_text("away"))),
            PresenceStatus::ExtendedAway => Some(base.with_child(Element::new("show", NS_CLIENT).with_text("xa"))),
            PresenceStatus::DoNotDisturb => Some(base.with_child(Element::new("show", NS_CLIENT).with_text("dnd"))),
        }
    }
}

/// Do-not-disturb is never changed by idle or sleep detection.
pub proof fn law_dnd_ignores_idle(m: PresenceModel)
    requires
        m.user_status == PresenceStatus::DoNotDisturb,
    ensures
        idle_spec(m) == m,
        sleep_spec(m) == m,
        effective_spec(idle_spec(m)) == effective_spec(m),
        effective_spec(sleep_spec(m)) == effective_spec(m),
{
}

/// From an active state, idle (or idle then sleep) followed by activity
/// gives back the user's status.
pub proof fn law_activity_restores(m: PresenceModel)
    requires
        m.auto_state == AutoState::Active,
    ensures
        activity_spec(idle_spec(m)).user_status == m.user_status,
        activity_spec(sleep_spec(idle_spec(m))).user_status == m.user_status,
        activity_spec(sleep_spec(m)).user_status == m.user_status,
        activity_spec(idle_spec(m)).auto_state == AutoState::Active,
{
}

/// Disconnecting and reconnecting leaves the broadcast status as it was.
pub proof fn law_reconnect_preserves(m: PresenceModel)
    requires
        m.online,
    ensures
        effective_spec(PresenceModel { online: true, ..PresenceModel { online: false, ..m } }) == effective_spec(m),
        effective_spec(PresenceModel { online: false, ..m }) == PresenceStatus::Offline,
{
}

/// An automatic presence event: the user went idle, or the machine sleeps.
pub enum AutoEvent {
    Idle,
    Sleep,
}

/// The model after the automatic events `evs`, in order.
pub open spec fn auto_after(m: PresenceModel, evs: Seq<AutoEvent>) -> PresenceModel
    decreases evs.len(),
{
    if evs.len() == 0 {
        m
    } else {
        let before = auto_after(m, evs.drop_last());
        match evs.last() {
            AutoEvent::Idle => idle_spec(before),
            AutoEvent::Sleep => sleep_spec(before),
        }
    }
}

proof fn lemma_auto_keeps_user(m: PresenceModel, evs: Seq<AutoEvent>)
    requires
        m.auto_state == AutoState::Active,
    ensures
        auto_after(m, evs).user_status == m.user_status,
        auto_after(m, evs).auto_state != AutoState::Active ==> auto_after(m, evs).pre_auto_away_status == m.user_status,
        auto_after(m, evs).online == m.online,
    decreases evs.len(),
{
    if evs.len() > 0 {
        lemma_auto_keeps_user(m, evs.drop_last());
    }
}

/// From an active state, whatever run of idle and sleep events follows,
/// activity gives back the user's own status and the active state.
pub proof fn law_activity_restores_after_any(m: PresenceModel, evs: Seq<AutoEvent>)
    requires
        m.auto_state == AutoState::Active,
    ensures
        activity_spec(auto_after(m, evs)).user_status == m.user_status,
        activity_spec(auto_after(m, evs)).auto_state == AutoState::Active,
{
    lemma_auto_keeps_user(m, evs);
}

/// Do-not-disturb is never changed by any run of idle and sleep events.
pub proof fn law_dnd_ignores_any_idle(m: PresenceModel, evs: Seq<AutoEvent>)
    requires
        m.user_status == PresenceStatus::DoNotDisturb,
    ensures
        auto_after(m, evs) == m,
    decreases evs.len(),
{
    if evs.len() > 0 {
        law_dnd_ignores_any_idle(m, evs.drop_last());
    }
}

/// An event that the session, not the user, brings to the machine.
pub enum SessionEvent {
    Idle,
    Sleep,
    Activity,
    Connected,
    Disconnected,
}

/// The model after one session event.
pub open spec fn session_step(m: PresenceModel, e: SessionEvent) -> PresenceModel {
    match e {
        SessionEvent::Idle => idle_spec(m),
        SessionEvent::Sleep => sleep_spec(m),
        SessionEvent::Activity => activity_spec(m),
        SessionEvent::Connected => PresenceModel { online: true, ..m },
        SessionEvent::Disconnected => PresenceModel { online: false, ..m },
    }
}

/// The model after the session events `evs`, in order.
pub open spec fn session_after(m: PresenceModel, evs: Seq<SessionEvent>) -> PresenceModel
    decreases evs.len(),
{
    if evs.len() == 0 {
        m
    } else {
        session_step(session_after(m, evs.drop_last()), evs.last())
    }
}

/// While the automatic layer is engaged, the saved status is the user's own.
pub open spec fn presence_consistent(m: PresenceModel) -> bool {
    m.auto_state != AutoState::Active ==> m.pre_auto_away_status == m.user_status
}

/// The machine starts consistent, and each status the user sets leaves it so.
pub proof fn law_consistent_start(m: PresenceModel, s: PresenceStatus)
    ensures
        presence_consistent(initial_model()),
        presence_consistent(set_user_status_spec(m, s)),
{
}

/// The user's status is never changed by the machine: whatever run of
/// idle, sleep, activity, connection and disconnection events follows, it
/// stays what the user set, and the saved status stays the user's own.
/// Connection events leave the automatic layer as it was.
pub proof fn law_user_status_kept(m: PresenceModel, evs: Seq<SessionEvent>)
    requires
        presence_consistent(m),
    ensures
        session_after(m, evs).user_status == m.user_status,
        presence_consistent(session_after(m, evs)),
        session_step(m, SessionEvent::Connected).auto_state == m.auto_state,
        session_step(m, SessionEvent::Disconnected).auto_state == m.auto_state,
    decreases evs.len(),
{
    if evs.len() > 0 {
        law_user_status_kept(m, evs.drop_last());
    }
}

} // verus!
