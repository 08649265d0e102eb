use rexisce::xmpp::modules::presence_machine::{AutoState, PresenceMachine, PresenceStatus};

fn connected_machine() -> PresenceMachine {
    let mut m = PresenceMachine::new();
    m.on_connected();
    m
}

// 1. Initial state
#[test]
fn initial_state_is_active_available() {
    let mut m = PresenceMachine::new();
    // Before connecting, status should be Offline.
    assert_eq!(m.effective_status(), PresenceStatus::Offline);

    m.on_connected();
    assert_eq!(m.effective_status(), PresenceStatus::Available);
    assert_eq!(m.auto_state(), AutoState::Active);
}

// 2. Idle → auto-away
#[test]
fn idle_transitions_to_auto_away() {
    let mut m = connected_machine();
    m.on_idle_detected();
    assert_eq!(m.effective_status(), PresenceStatus::Away);
    assert_eq!(m.auto_state(), AutoState::AutoAway);
}

// 3. Sleep from Active → xa
#[test]
fn sleep_from_active_transitions_to_xa() {
    let mut m = connected_machine();
    m.on_sleep_detected();
    assert_eq!(m.effective_status(), PresenceStatus::ExtendedAway);
    assert_eq!(m.auto_state(), AutoState::AutoXa);
}

// 4. Activity from AutoAway restores pre-auto status
#[test]
fn activity_from_auto_away_restores_pre_state() {
    let mut m = connected_machine();
    m.set_user_status(PresenceStatus::Away); // user manually set Away
    m.on_connected(); // reconnect keeps online = true
    m.on_idle_detected(); // auto-away on top of user Away
    assert_eq!(m.effective_status(), PresenceStatus::Away); // still Away (auto == user)

    // Now with Available
    let mut m2 = connected_machine();
    m2.on_idle_detected();
    assert_eq!(m2.effective_status(), PresenceStatus::Away);
    m2.on_activity_detected();
    assert_eq!(m2.effective_status(), PresenceStatus::Available);
    assert_eq!(m2.auto_state(), AutoState::Active);
}

// 5. Activity from AutoXa restores pre-auto status
#[test]
fn activity_from_xa_restores_pre_state() {
    let mut m = connected_machine();
    m.on_idle_detected();
    m.on_sleep_detected(); // now AutoXa, pre_auto = Available
    assert_eq!(m.effective_status(), PresenceStatus::ExtendedAway);

    m.on_activity_detected();
    assert_eq!(m.effective_status(), PresenceStatus::Available);
    assert_eq!(m.auto_state(), AutoState::Active);
}

// 6. DND ignores idle
#[test]
fn dnd_ignores_idle() {
    let mut m = connected_machine();
    m.set_user_status(PresenceStatus::DoNotDisturb);
    m.on_idle_detected();
    assert_eq!(m.effective_status(), PresenceStatus::DoNotDisturb);
    assert_eq!(m.auto_state(), AutoState::Active);
}

// 7. DND ignores sleep
#[test]
fn dnd_ignores_sleep() {
    let mut m = connected_machine();
    m.set_user_status(PresenceStatus::DoNotDisturb);
    m.on_sleep_detected();
    assert_eq!(m.effective_status(), PresenceStatus::DoNotDisturb);
    assert_eq!(m.auto_state(), AutoState::Active);
}

// 8. Offline when not connected
#[test]
fn effective_status_offline_when_not_connected() {
    let m = PresenceMachine::new(); // never connected
    assert_eq!(m.effective_status(), PresenceStatus::Offline);

    let mut m2 = connected_machine();
    m2.on_disconnected();
    assert_eq!(m2.effective_status(), PresenceStatus::Offline);
}

// 9. set_user_status resets auto_state
#[test]
fn set_user_status_resets_auto_state() {
    let mut m = connected_machine();
    m.on_idle_detected();
    assert_eq!(m.auto_state(), AutoState::AutoAway);

    m.set_user_status(PresenceStatus::Available);
    assert_eq!(m.auto_state(), AutoState::Active);
    assert_eq!(m.effective_status(), PresenceStatus::Available);
}

// 10. build_presence_stanza — Away has a <show>away</show> child
#[test]
fn build_presence_stanza_away_has_show_element() {
    let mut m = connected_machine();
    m.on_idle_detected(); // → Away

    let stanza = m.build_presence_stanza().expect("should produce a stanza");
    assert_eq!(stanza.name(), "presence");
    assert_eq!(stanza.ns(), "jabber:client");

    let show = stanza
        .get_child("show", "jabber:client")
        .expect("<show> child must be present");
    assert_eq!(show.text(), "away");
}

// Bonus: Available stanza is empty (no <show>)
#[test]
fn build_presence_stanza_available_has_no_show() {
    let m = connected_machine();
    let stanza = m.build_presence_stanza().expect("should produce a stanza");
    assert!(
        stanza.get_child("show", "jabber:client").is_none(),
        "Available presence must not have a <show> child"
    );
}

// Bonus: Offline returns None
#[test]
fn build_presence_stanza_returns_none_when_offline() {
    let m = PresenceMachine::new();
    assert!(m.build_presence_stanza().is_none());
}

// Bonus: auto_state is preserved across reconnect
#[test]
fn auto_state_preserved_across_reconnect() {
    let mut m = connected_machine();
    m.on_idle_detected(); // → AutoAway
    m.on_disconnected();
    assert_eq!(m.effective_status(), PresenceStatus::Offline);

    m.on_connected(); // reconnect — should NOT reset auto_state
    assert_eq!(m.auto_state(), AutoState::AutoAway);
    assert_eq!(m.effective_status(), PresenceStatus::Away);
}

// Bonus: xa stanza has <show>xa</show>
#[test]
fn build_presence_stanza_xa_has_show_xa() {
    let mut m = connected_machine();
    m.on_sleep_detected();

    let stanza = m.build_presence_stanza().expect("stanza");
    let show = stanza
        .get_child("show", "jabber:client")
        .expect("<show> child");
    assert_eq!(show.text(), "xa");
}

// Bonus: dnd stanza has <show>dnd</show>
#[test]
fn build_presence_stanza_dnd_has_show_dnd() {
    let mut m = connected_machine();
    m.set_user_status(PresenceStatus::DoNotDisturb);

    let stanza = m.build_presence_stanza().expect("stanza");
    let show = stanza
        .get_child("show", "jabber:client")
        .expect("<show> child");
    assert_eq!(show.text(), "dnd");
}

#[test]
fn user_status_survives_any_session_events() {
    let mut m = PresenceMachine::new();
    m.on_connected();
    m.set_user_status(PresenceStatus::Away);
    m.on_idle_detected();
    m.on_disconnected();
    m.on_connected();
    m.on_sleep_detected();
    assert_eq!(m.effective_status(), PresenceStatus::ExtendedAway);
    m.on_activity_detected();
    assert_eq!(m.effective_status(), PresenceStatus::Away);
}
