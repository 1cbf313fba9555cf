use second_screen_capture::bitrate::{BitrateBounds, FeedbackReport};
use second_screen_capture::registry::{RegistryError, SessionRegistry};
use second_screen_capture::session::{next_state, Session, SessionEvent, SessionState, TransitionError};

const ALL_STATES: [SessionState; 6] = [
    SessionState::New,
    SessionState::Negotiating,
    SessionState::Connected,
    SessionState::Draining,
    SessionState::Closed,
    SessionState::Failed,
];

#[test]
fn invalid_answer_while_negotiating_fails_session() {
    assert_eq!(next_state(SessionState::Negotiating, SessionEvent::RemoteAnswerInvalid), Ok(SessionState::Failed));
    for s in ALL_STATES {
        assert_ne!(next_state(s, SessionEvent::RemoteAnswerInvalid), Ok(SessionState::Connected));
    }
}

#[test]
fn session_lifecycle_to_closed() {
    let bounds = BitrateBounds::new(100_000, 4_000_000).unwrap();
    let mut s = Session::new(7, 10_000_000, &bounds);
    assert_eq!(s.bitrate_bps, 4_000_000);
    assert_eq!(s.handle(SessionEvent::Start), Ok(SessionState::Negotiating));
    assert_eq!(s.handle(SessionEvent::RemoteAnswerValid), Ok(SessionState::Connected));
    assert_eq!(s.handle(SessionEvent::CloseRequested), Ok(SessionState::Draining));
    assert_eq!(s.handle(SessionEvent::InFlightDrained), Ok(SessionState::Closed));
    assert_eq!(
        s.handle(SessionEvent::Start),
        Err(TransitionError { state: SessionState::Closed, event: SessionEvent::Start })
    );
    assert_eq!(s.state, SessionState::Closed);
}

#[test]
fn timeout_and_transport_loss_fail_session() {
    assert_eq!(next_state(SessionState::Negotiating, SessionEvent::Timeout), Ok(SessionState::Failed));
    assert_eq!(next_state(SessionState::Connected, SessionEvent::TransportLost), Ok(SessionState::Failed));
    assert!(next_state(SessionState::New, SessionEvent::RemoteAnswerValid).is_err());
    assert!(next_state(SessionState::Failed, SessionEvent::Start).is_err());
}

#[test]
fn feedback_applies_only_to_connected_sessions() {
    let bounds = BitrateBounds::new(100_000, 4_000_000).unwrap();
    let report = FeedbackReport { loss: 1500, rtt_ms: 80, receiver_fill: 0 };
    let mut s = Session::new(1, 2_000_000, &bounds);
    assert!(!s.apply_feedback(&report, &bounds, 10));
    assert_eq!(s.bitrate_bps, 2_000_000);
    s.handle(SessionEvent::Start).unwrap();
    s.handle(SessionEvent::RemoteAnswerValid).unwrap();
    assert!(s.apply_feedback(&report, &bounds, 20));
    assert_eq!(s.bitrate_bps, 1_400_000);
    assert_eq!(s.last_feedback_ms, 20);
}

#[test]
fn registry_keeps_sessions_isolated() {
    let bounds = BitrateBounds::new(100_000, 4_000_000).unwrap();
    let mut reg = SessionRegistry::new();
    reg.insert(Session::new(1, 1_000_000, &bounds)).unwrap();
    reg.insert(Session::new(2, 1_000_000, &bounds)).unwrap();
    assert_eq!(reg.insert(Session::new(1, 5, &bounds)), Err(RegistryError::DuplicateId));
    assert_eq!(reg.len(), 2);

    assert_eq!(reg.handle_event(1, SessionEvent::Start), Ok(SessionState::Negotiating));
    assert_eq!(reg.handle_event(1, SessionEvent::RemoteAnswerValid), Ok(SessionState::Connected));
    assert_eq!(reg.handle_event(2, SessionEvent::Start), Ok(SessionState::Negotiating));
    assert_eq!(reg.handle_event(2, SessionEvent::RemoteAnswerInvalid), Ok(SessionState::Failed));
    assert_eq!(reg.get(1).unwrap().state, SessionState::Connected);
    assert_eq!(reg.handle_event(9, SessionEvent::Start), Err(RegistryError::UnknownSession));
    assert_eq!(
        reg.handle_event(2, SessionEvent::Start),
        Err(RegistryError::Transition(TransitionError { state: SessionState::Failed, event: SessionEvent::Start }))
    );

    let report = FeedbackReport { loss: 0, rtt_ms: 30, receiver_fill: 0 };
    assert_eq!(reg.apply_feedback(1, &report, &bounds, 99), Some(1_050_000));
    assert_eq!(reg.apply_feedback(2, &report, &bounds, 99), None);
    assert_eq!(reg.get(2).unwrap().bitrate_bps, 1_000_000);

    assert_eq!(reg.remove(2).map(|s| s.id), Some(2));
    assert!(reg.get(2).is_none());
    assert!(reg.remove(2).is_none());
    assert_eq!(reg.len(), 1);
}
