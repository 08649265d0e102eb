use rexisce::xmpp::multi_engine::MultiEngineManager;
use rexisce::xmpp::AccountId;

fn acct(jid: &str) -> AccountId {
    AccountId::new(jid.to_string())
}

#[test]
fn start_account_registers_engine() {
    let id = acct("alice@example.com");
    let mut mgr = MultiEngineManager::new(id.clone());
    assert!(mgr.start_account("alice@example.com"));
    assert!(mgr.is_running(&id));
}

#[test]
fn start_account_idempotent() {
    let id = acct("alice@example.com");
    let mut mgr = MultiEngineManager::new(id);
    assert!(mgr.start_account("alice@example.com"));
    assert!(!mgr.start_account("alice@example.com"));
    assert_eq!(mgr.engine_count(), 1);
}

#[test]
fn stop_account_removes_engine() {
    let id = acct("alice@example.com");
    let mut mgr = MultiEngineManager::new(id.clone());
    mgr.start_account("alice@example.com");
    assert!(mgr.is_running(&id));
    assert!(mgr.stop_account(&id));
    assert!(!mgr.is_running(&id));
    assert!(!mgr.stop_account(&id));
}

#[test]
fn stop_active_clears_active() {
    let id = acct("alice@example.com");
    let mut mgr = MultiEngineManager::new(id.clone());
    mgr.start_account("alice@example.com");
    mgr.stop_account(&id);
    assert_eq!(mgr.active_account().as_str(), "");
}

#[test]
fn stop_other_keeps_active() {
    let alice = acct("alice@example.com");
    let bob = acct("bob@example.com");
    let mut mgr = MultiEngineManager::new(alice.clone());
    mgr.start_account("bob@example.com");
    mgr.stop_account(&bob);
    assert_eq!(mgr.active_account().as_str(), "alice@example.com");
}

#[test]
fn switch_active_changes_focus() {
    let alice = acct("alice@example.com");
    let bob = acct("bob@example.com");
    let mut mgr = MultiEngineManager::new(alice);
    mgr.start_account("bob@example.com");
    mgr.switch_active(bob.clone());
    assert_eq!(mgr.active_account().as_str(), bob.as_str());
    assert!(mgr.send_to_active());
}

#[test]
fn send_to_unknown_returns_false() {
    let id = acct("alice@example.com");
    let mgr = MultiEngineManager::new(id.clone());
    assert!(!mgr.send_to(&id));
}

#[test]
fn send_to_active_unknown_returns_false() {
    let mgr = MultiEngineManager::new(acct("nobody@example.com"));
    assert!(!mgr.send_to_active());
}

#[test]
fn multiple_accounts_independent() {
    let alice = acct("alice@example.com");
    let bob = acct("bob@example.com");
    let mut mgr = MultiEngineManager::new(alice.clone());
    mgr.start_account("alice@example.com");
    mgr.start_account("bob@example.com");
    assert!(mgr.is_running(&alice));
    assert!(mgr.is_running(&bob));
    assert_eq!(mgr.engine_count(), 2);
    mgr.stop_account(&alice);
    assert!(!mgr.is_running(&alice));
    assert!(mgr.is_running(&bob));
    assert!(mgr.send_to(&bob));
}
