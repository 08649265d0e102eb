use rexisce::xmpp::connection::proxy::{ProxyLifecycle, ProxyState, TransportKind};

#[test]
fn new_starts_stopped_with_tcp() {
    let lc = ProxyLifecycle::new(5000);
    assert_eq!(lc.state(), &ProxyState::Stopped);
    assert_eq!(lc.transport(), TransportKind::TcpProxy);
    assert_eq!(lc.tcp_failures(), 0);
}

#[test]
fn start_transitions_to_starting() {
    let mut lc = ProxyLifecycle::new(5000);
    assert!(lc.start().is_ok());
    assert_eq!(lc.state(), &ProxyState::Starting);
}

#[test]
fn start_fails_when_already_running() {
    let mut lc = ProxyLifecycle::new(5000);
    lc.start().unwrap();
    lc.on_started();
    assert_eq!(lc.state(), &ProxyState::Running);
    let result = lc.start();
    assert!(result.is_err());
}

#[test]
fn on_started_transitions_to_running() {
    let mut lc = ProxyLifecycle::new(5000);
    lc.start().unwrap();
    lc.on_started();
    assert_eq!(lc.state(), &ProxyState::Running);
}

#[test]
fn on_start_failed_increments_failures() {
    let mut lc = ProxyLifecycle::new(5000);
    lc.start().unwrap();
    lc.on_start_failed("connection refused".into());
    assert_eq!(lc.tcp_failures(), 1);
    assert_eq!(lc.state(), &ProxyState::Failed("connection refused".into()));
}

#[test]
fn three_failures_falls_back_to_websocket() {
    let mut lc = ProxyLifecycle::new(5000);

    lc.start().unwrap();
    lc.on_start_failed("err".into());
    assert_eq!(lc.transport(), TransportKind::TcpProxy);

    lc.start().unwrap();
    lc.on_start_failed("err".into());
    assert_eq!(lc.transport(), TransportKind::TcpProxy);

    lc.start().unwrap();
    lc.on_start_failed("err".into());
    assert_eq!(lc.transport(), TransportKind::WebSocket);
    assert_eq!(lc.tcp_failures(), 3);
}

#[test]
fn tick_triggers_timeout_and_failure() {
    let mut lc = ProxyLifecycle::new(3000);
    lc.start().unwrap();

    let triggered = lc.tick(2000);
    assert!(!triggered);
    assert_eq!(lc.state(), &ProxyState::Starting);

    let triggered = lc.tick(3001);
    assert!(triggered);
    assert_ne!(lc.state(), &ProxyState::Starting);
}

#[test]
fn stop_and_on_stopped_cycle() {
    let mut lc = ProxyLifecycle::new(5000);
    lc.start().unwrap();
    lc.on_started();
    assert_eq!(lc.state(), &ProxyState::Running);

    lc.stop();
    assert_eq!(lc.state(), &ProxyState::Stopping);

    lc.on_stopped();
    assert_eq!(lc.state(), &ProxyState::Stopped);
}

#[test]
fn three_failures_resets_to_stopped() {
    let mut lc = ProxyLifecycle::new(5000);

    for _ in 0..3 {
        lc.start().unwrap();
        lc.on_start_failed("err".into());
    }

    assert_eq!(lc.state(), &ProxyState::Stopped);
    assert_eq!(lc.transport(), TransportKind::WebSocket);
}

#[test]
fn websocket_stays_after_success() {
    let mut lc = ProxyLifecycle::new(5000);
    for _ in 0..3 {
        lc.start().unwrap();
        lc.on_start_failed("err".into());
    }
    lc.start().unwrap();
    lc.on_started();
    assert_eq!(lc.transport(), TransportKind::WebSocket);
    assert_eq!(lc.state(), &ProxyState::Running);
}

#[test]
fn tick_outside_starting_never_fires() {
    let mut lc = ProxyLifecycle::new(10);
    assert!(!lc.tick(1_000_000));
    assert_eq!(lc.state(), &ProxyState::Stopped);
}

#[test]
fn timeout_failure_names_its_reason() {
    let mut lc = ProxyLifecycle::new(3000);
    lc.start().unwrap();
    assert!(!lc.tick(2000));
    assert_eq!(*lc.state(), ProxyState::Starting);
    assert!(lc.tick(3001));
    assert_eq!(*lc.state(), ProxyState::Failed("start timeout".into()));
    assert_eq!(lc.tcp_failures(), 1);
    assert_eq!(lc.transport(), TransportKind::TcpProxy);
}
