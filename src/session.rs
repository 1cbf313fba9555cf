use crate::bitrate::{BitrateBounds, FeedbackReport, clamp, next_target};
use vstd::prelude::*;

verus! {

/// Where a viewer's connection stands.
#[derive(Clone, Copy, Debug, PartialEq, Eq, Structural)]
pub enum SessionState {
    New,
    Negotiating,
    Connected,
    Draining,
    Closed,
    Failed,
}

/// What happens to a session.
#[derive(Clone, Copy, Debug, PartialEq, Eq, Structural)]
pub enum SessionEvent {
    /// An offer arrived; the local description is generated.
    Start,
    /// The remote description was accepted and a transport path confirmed.
    RemoteAnswerValid,
    /// The remote description was malformed or unusable.
    RemoteAnswerInvalid,
    /// Negotiation took too long.
    Timeout,
    /// The connected transport went away.
    TransportLost,
    CloseRequested,
    /// Every frame in flight has been sent.
    InFlightDrained,
}

/// An event that the session's state does not allow.
#[derive(Clone, Copy, Debug, PartialEq, Eq, Structural)]
pub struct TransitionError {
    pub state: SessionState,
    pub event: SessionEvent,
}

/// The state a session moves to on `e`, or None where `e` has no meaning.
pub open spec fn transition(s: SessionState, e: SessionEvent) -> Option<SessionState> {
    match (s, e) {
        (SessionState::New, SessionEvent::Start) => Some(SessionState::Negotiating),
        (SessionState::Negotiating, SessionEvent::RemoteAnswerValid) => Some(
            SessionState::Connected,
        ),
        (SessionState::Negotiating, SessionEvent::RemoteAnswerInvalid) => Some(
            SessionState::Failed,
        ),
        (SessionState::Negotiating, SessionEvent::Timeout) => Some(SessionState::Failed),
        (SessionState::Connected, SessionEvent::TransportLost) => Some(SessionState::Failed),
        (SessionState::Connected, SessionEvent::CloseRequested) => Some(SessionState::Draining),
        (SessionState::Draining, SessionEvent::InFlightDrained) => Some(SessionState::Closed),
        _ => None,
    }
}

/// A session in this state will not change again.
pub open spec fn is_terminal(s: SessionState) -> bool {
    s == SessionState::Closed || s == SessionState::Failed
}

/// The state a session moves to on `event`; an event that the state does
/// not allow is refused.
pub fn next_state(state: SessionState, event: SessionEvent) -> (r: Result<
    SessionState,
    TransitionError,
>)
    ensures
        transition(state, event) matches Some(n) ==> r == Ok::<SessionState, TransitionError>(n),
        transition(state, event) is None ==> r == Err::<SessionState, TransitionError>(
            TransitionError { state, event },
        ),
{
    match (state, event) {
        (SessionState::New, SessionEvent::Start) => Ok(SessionState::Negotiating),
        (SessionState::Negotiating, SessionEvent::RemoteAnswerValid) => Ok(
            SessionState::Connected,
        ),
        (SessionState::Negotiating, SessionEvent::RemoteAnswerInvalid) => Ok(
            SessionState::Failed,
        ),
        (SessionState::Negotiating, SessionEvent::Timeout) => Ok(SessionState::Failed),
        (SessionState::Connected, SessionEvent::TransportLost) => Ok(SessionState::Failed),
        (SessionState::Connected, SessionEvent::CloseRequested) => Ok(SessionState::Draining),
        (SessionState::Draining, SessionEvent::InFlightDrained) => Ok(SessionState::Closed),
        _ => Err(TransitionError { state, event }),
    }
}

/// An invalid remote description during negotiation always fails the
/// session and never connects it; connecting takes a valid answer while
/// negotiating, and the terminal states accept no event.
pub proof fn lemma_invalid_answer_fails(s: SessionState, e: SessionEvent)
    ensures
        transition(SessionState::Negotiating, SessionEvent::RemoteAnswerInvalid) == Some(
            SessionState::Failed,
        ),
        transition(s, e) == Some(SessionState::Connected) ==> s == SessionState::Negotiating && e
            == SessionEvent::RemoteAnswerValid,
        is_terminal(s) ==> transition(s, e) is None,
{
}

/// One viewer's connection: its id, where it stands, and its bitrate target.
#[derive(Clone, Copy, Debug, PartialEq, Eq, Structural)]
pub struct Session {
    pub id: u64,
    pub state: SessionState,
    pub bitrate_bps: u32,
    /// When the last feedback report was applied, in milliseconds.
    pub last_feedback_ms: u64,
}

impl Session {
    /// A new session whose bitrate target starts at `initial_bps`, clamped to
    /// the bounds.
    pub fn new(id: u64, initial_bps: u32, bounds: &BitrateBounds) -> (r: Session)
        requires
            bounds.wf(),
        ensures
            r.id == id,
            r.state == SessionState::New,
            r.bitrate_bps == clamp(initial_bps as int, bounds.spec_min(), bounds.spec_max()),
            r.last_feedback_ms == 0,
    {
        let min = bounds.min_bps();
        let max = bounds.max_bps();
        let bitrate_bps = if initial_bps < min {
            min
        } else if initial_bps > max {
            max
        } else {
            initial_bps
        };
        Session { id, state: SessionState::New, bitrate_bps, last_feedback_ms: 0 }
    }

    /// Moves the session on `event`; a refused event leaves it unchanged.
    pub fn handle(&mut self, event: SessionEvent) -> (r: Result<SessionState, TransitionError>)
        ensures
            final(self).id == old(self).id,
            final(self).bitrate_bps == old(self).bitrate_bps,
            final(self).last_feedback_ms == old(self).last_feedback_ms,
            transition(old(self).state, event) matches Some(n) ==> r == Ok::<
                SessionState,
                TransitionError,
            >(n) && final(self).state == n,
            transition(old(self).state, event) is None ==> r == Err::<
                SessionState,
                TransitionError,
            >(TransitionError { state: old(self).state, event }) && final(self).state == old(
                self,
            ).state,
    {
        let r = next_state(self.state, event);
        match r {
            Ok(n) => {
                self.state = n;
            },
            Err(_) => {},
        }
        r
    }

    /// Applies a feedback report received at `now_ms` to a connected
    /// session's bitrate target; a session in any other state ignores it.
    pub fn apply_feedback(
        &mut self,
        report: &FeedbackReport,
        bounds: &BitrateBounds,
        now_ms: u64,
    ) -> (r: bool)
        requires
            bounds.wf(),
        ensures
            r <==> old(self).state == SessionState::Connected,
            final(self).id == old(self).id,
            final(self).state == old(self).state,
            r ==> final(self).bitrate_bps == next_target(
                old(self).bitrate_bps as int,
                report.loss as int,
                bounds.spec_min(),
                bounds.spec_max(),
            ) && final(self).last_feedback_ms == now_ms,
            !r ==> *final(self) == *old(self),
    {
        if self.state == SessionState::Connected {
            self.bitrate_bps = bounds.next_bitrate(self.bitrate_bps, report);
            self.last_feedback_ms = now_ms;
            true
        } else {
            false
        }
    }
}

} // verus!
