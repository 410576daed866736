use glimta::client::min_reconnect_delay;
use glimta::observation::{
    map_observation_item, ObservationFailure, Outgoing, StreamRecvError, Supervisor,
    SupervisorEvent, SupervisorPhase,
};
use glimta::time::TimeSpan;
use glimta::{Error, ReconnectOptions};

fn options(initial_secs: u64, max_secs: u64) -> ReconnectOptions {
    ReconnectOptions {
        initial_delay: TimeSpan::from_secs(initial_secs),
        max_delay: TimeSpan::from_secs(max_secs),
    }
}

#[test]
fn failures_become_observation_errors() {
    assert!(matches!(
        ObservationFailure::Decode("bad".to_string()).into_error(),
        Error::ObservationDecode(m) if m == "bad"
    ));
    assert!(matches!(ObservationFailure::Lagged(4).into_error(), Error::ObservationLagged { dropped: 4 }));
    assert!(matches!(ObservationFailure::Ended.into_error(), Error::ObservationEnded));
    assert!(matches!(
        ObservationFailure::Reconnect("down".to_string()).into_error(),
        Error::ObservationReconnect(m) if m == "down"
    ));
    assert!(matches!(
        ObservationFailure::Transport { kind: std::io::ErrorKind::TimedOut, message: "t".to_string() }.into_error(),
        Error::ObservationTransport { kind: std::io::ErrorKind::TimedOut, message } if message == "t"
    ));
}

#[test]
fn channel_items_map_to_consumer_items() {
    assert!(matches!(map_observation_item::<u32>(Some(Ok(Ok(2)))), Some(Ok(2))));
    assert!(matches!(
        map_observation_item::<u32>(Some(Err(StreamRecvError::Lagged(1)))),
        Some(Err(Error::ObservationLagged { dropped: 1 }))
    ));
    assert!(matches!(
        map_observation_item::<u32>(Some(Ok(Err(ObservationFailure::Ended)))),
        Some(Err(Error::ObservationEnded))
    ));
    assert!(map_observation_item::<u32>(None).is_none());
}

#[test]
fn updates_reset_the_backoff_and_are_forwarded() {
    let mut supervisor = Supervisor::new(options(1, 8));
    assert_eq!(supervisor.phase(), SupervisorPhase::Observing);
    assert_eq!(supervisor.delay(), TimeSpan::from_secs(1));
    let action = supervisor.step(SupervisorEvent::Update);
    assert!(matches!(action.message, Some(Outgoing::Update)));
    assert!(action.stop_if_undelivered);
    assert_eq!(supervisor.phase(), SupervisorPhase::Observing);
}

#[test]
fn lag_and_decode_errors_keep_the_subscription() {
    let mut supervisor = Supervisor::new(options(1, 8));
    let action = supervisor.step(SupervisorEvent::Failure(Error::ObservationLagged { dropped: 3 }));
    assert!(matches!(action.message, Some(Outgoing::Failure(ObservationFailure::Lagged(3)))));
    assert!(action.stop_if_undelivered);
    let action = supervisor.step(SupervisorEvent::Failure(Error::ObservationDecode("x".to_string())));
    assert!(matches!(action.message, Some(Outgoing::Failure(ObservationFailure::Decode(ref m))) if m == "x"));
    assert_eq!(supervisor.phase(), SupervisorPhase::Observing);
    assert_eq!(supervisor.delay(), TimeSpan::from_secs(1));
}

#[test]
fn a_failed_subscription_backs_off_until_the_maximum() {
    let mut supervisor = Supervisor::new(options(1, 5));
    let action = supervisor.step(SupervisorEvent::Failure(Error::ObservationTransport {
        kind: std::io::ErrorKind::ConnectionReset,
        message: "reset".to_string(),
    }));
    assert!(matches!(action.message, Some(Outgoing::Failure(ObservationFailure::Transport { .. }))));
    assert!(!action.stop_if_undelivered);
    assert_eq!(supervisor.phase(), SupervisorPhase::Reconnecting);
    assert_eq!(supervisor.delay(), TimeSpan::from_secs(2));

    let action = supervisor.step(SupervisorEvent::ReconnectFailed("unreachable".to_string()));
    assert!(matches!(action.message, Some(Outgoing::Failure(ObservationFailure::Reconnect(ref m))) if m == "unreachable"));
    assert!(action.stop_if_undelivered);
    assert_eq!(supervisor.delay(), TimeSpan::from_secs(4));
    supervisor.step(SupervisorEvent::ReconnectFailed("unreachable".to_string()));
    assert_eq!(supervisor.delay(), TimeSpan::from_secs(5));
    supervisor.step(SupervisorEvent::ReconnectFailed("unreachable".to_string()));
    assert_eq!(supervisor.delay(), TimeSpan::from_secs(5));

    let action = supervisor.step(SupervisorEvent::Reconnected);
    assert!(action.message.is_none());
    assert_eq!(supervisor.phase(), SupervisorPhase::Observing);

    // An update on the new subscription resets the wait before the next one.
    supervisor.step(SupervisorEvent::Update);
    let action = supervisor.step(SupervisorEvent::Ended);
    assert!(matches!(action.message, Some(Outgoing::Failure(ObservationFailure::Ended))));
    assert_eq!(supervisor.delay(), TimeSpan::from_secs(1));
}

#[test]
fn other_errors_are_described_and_end_the_subscription() {
    let mut supervisor = Supervisor::new(options(0, 0));
    assert_eq!(supervisor.delay(), min_reconnect_delay());
    let action = supervisor.step(SupervisorEvent::Failure(Error::NoGatewayFound));
    assert!(matches!(action.message, Some(Outgoing::FailureDescribing(Error::NoGatewayFound))));
    assert!(!action.stop_if_undelivered);
    assert_eq!(supervisor.phase(), SupervisorPhase::Reconnecting);
    assert_eq!(supervisor.delay(), min_reconnect_delay());
}

#[test]
fn events_of_the_other_phase_change_nothing() {
    let mut supervisor = Supervisor::new(options(1, 8));
    let action = supervisor.step(SupervisorEvent::Reconnected);
    assert!(action.message.is_none());
    assert!(!action.stop_if_undelivered);
    assert_eq!(supervisor.phase(), SupervisorPhase::Observing);
    supervisor.step(SupervisorEvent::Ended);
    let action = supervisor.step(SupervisorEvent::Update);
    assert!(action.message.is_none());
    assert_eq!(supervisor.phase(), SupervisorPhase::Reconnecting);
    assert_eq!(supervisor.delay(), TimeSpan::from_secs(2));
}

#[test]
fn each_subscription_waits_initial_after_an_update_and_doubles_otherwise() {
    let mut s = Supervisor::new(options(1, 30));
    // The first subscription delivers nothing and ends: the wait doubles.
    s.step(SupervisorEvent::Failure(Error::ObservationDecode("x".to_string())));
    s.step(SupervisorEvent::Ended);
    assert_eq!(s.delay().as_secs(), 2);
    // A failed resubscription doubles it again.
    s.step(SupervisorEvent::ReconnectFailed("down".to_string()));
    assert_eq!(s.delay().as_secs(), 4);
    // A resubscription that delivers an update and then ends waits the initial delay.
    s.step(SupervisorEvent::Reconnected);
    s.step(SupervisorEvent::Update);
    s.step(SupervisorEvent::Failure(Error::ObservationLagged { dropped: 2 }));
    s.step(SupervisorEvent::Ended);
    assert_eq!(s.phase(), SupervisorPhase::Reconnecting);
    assert_eq!(s.delay().as_secs(), 1);
    // A resubscription without updates doubles from the wait before it.
    s.step(SupervisorEvent::Reconnected);
    s.step(SupervisorEvent::Failure(Error::NoGatewayFound));
    assert_eq!(s.delay().as_secs(), 2);
}
