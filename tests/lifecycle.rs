use fust::lifecycle::{
    on_signal, AcquireAction, Attempt, RetryPolicy, ShutdownLatch, SignalEvent, SupervisorAction,
    RETRY_INTERVAL_SECS,
};

#[test]
fn default_retry_interval_is_five_seconds() {
    assert_eq!(RETRY_INTERVAL_SECS, 5);
    assert_eq!(RetryPolicy::new().interval_secs, 5);
}

#[test]
fn acquisition_retries_through_exhaustion_then_uses_connection() {
    let policy = RetryPolicy::new();
    let attempts = [Attempt::Failed, Attempt::Failed, Attempt::Failed, Attempt::Acquired];
    let actions: Vec<AcquireAction> = attempts.iter().map(|a| policy.decide(*a)).collect();
    assert_eq!(
        actions,
        vec![
            AcquireAction::RetryAfter(5),
            AcquireAction::RetryAfter(5),
            AcquireAction::RetryAfter(5),
            AcquireAction::Use,
        ]
    );
    assert!(!actions.contains(&AcquireAction::Abort));
}

#[test]
fn acquisition_uses_configured_interval_and_yields_to_shutdown() {
    let policy = RetryPolicy { interval_secs: 2 };
    assert_eq!(policy.decide(Attempt::Failed), AcquireAction::RetryAfter(2));
    assert_eq!(policy.decide(Attempt::ShutdownObserved), AcquireAction::Abort);
}

#[test]
fn supervisor_keeps_waiting_on_receive_error() {
    assert_eq!(on_signal(SignalEvent::ReceiveError), SupervisorAction::KeepWaiting);
    assert_eq!(on_signal(SignalEvent::Received), SupervisorAction::ClosePool);
    assert_eq!(on_signal(SignalEvent::Closed), SupervisorAction::ClosePool);
}

#[test]
fn shutdown_latch_fires_once() {
    let mut latch = ShutdownLatch::new();
    assert!(!latch.sent());
    assert!(latch.fire());
    assert!(latch.sent());
    assert!(!latch.fire());
    assert!(latch.sent());
}
