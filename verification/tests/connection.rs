use kswim::connection::{
    connection_step, periods_valid, ConnectAction, ConnectEvent, ConnectState, RETRY_DELAY_MILLIS,
};
use std::time::Duration;

#[test]
fn group_periods() {
    let period = Duration::from_secs(1).as_nanos();
    let timeout = Duration::from_millis(300).as_nanos();
    assert!(periods_valid(period, timeout));
    assert!(!periods_valid(timeout, period));
    assert!(!periods_valid(period, period));
}

#[test]
fn failed_attempts_are_counted_and_retried() {
    let mut state = ConnectState::Connecting { attempt: 0 };
    for n in 1..=3u64 {
        let (next, action) = connection_step(state, ConnectEvent::ConnectFailed);
        assert_eq!(next, ConnectState::Connecting { attempt: n });
        assert!(matches!(action, ConnectAction::RetryAfter { millis } if millis == RETRY_DELAY_MILLIS));
        state = next;
    }
    assert_eq!(RETRY_DELAY_MILLIS, 500);
    let (next, action) = connection_step(state, ConnectEvent::ConnectSucceeded);
    assert_eq!(next, ConnectState::Connected);
    assert!(matches!(action, ConnectAction::SignalReady));
}

#[test]
fn connected_task_writes_and_reports() {
    let (next, action) =
        connection_step(ConnectState::Connected, ConnectEvent::Outgoing { msg: String::from("ping") });
    assert_eq!(next, ConnectState::Connected);
    match action {
        ConnectAction::Write { msg } => assert_eq!(msg, "ping"),
        other => panic!("expected a write, got {:?}", other),
    }
    let (next, action) = connection_step(ConnectState::Connected, ConnectEvent::ChannelClosed);
    assert_eq!(next, ConnectState::Connected);
    assert!(matches!(action, ConnectAction::ReportClosedChannel));
}

#[test]
fn events_that_do_not_fit_are_ignored() {
    let (next, action) = connection_step(ConnectState::Connected, ConnectEvent::ConnectFailed);
    assert_eq!(next, ConnectState::Connected);
    assert!(matches!(action, ConnectAction::Ignore));
    let waiting = ConnectState::Connecting { attempt: 4 };
    let (next, action) =
        connection_step(waiting, ConnectEvent::Outgoing { msg: String::from("early") });
    assert_eq!(next, waiting);
    assert!(matches!(action, ConnectAction::Ignore));
}
