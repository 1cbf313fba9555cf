use crate::bitrate::{BitrateBounds, FeedbackReport, next_target};
use crate::session::{Session, SessionEvent, SessionState, TransitionError, transition};
use vstd::prelude::*;

verus! {

/// Why a registry request was refused.
#[derive(Clone, Copy, Debug, PartialEq, Eq, Structural)]
pub enum RegistryError {
    /// A session with this id is already registered.
    DuplicateId,
    /// No session has this id.
    UnknownSession,
    /// The session's state does not allow the event.
    Transition(TransitionError),
}

/// No two sessions of `s` share an id.
pub open spec fn ids_unique(s: Seq<Session>) -> bool {
    forall|i: int, j: int| 0 <= i < s.len() && 0 <= j < s.len() && i != j ==> s[i].id != s[j].id
}

/// Some session of `s` has the id `id`.
pub open spec fn has_id(s: Seq<Session>, id: u64) -> bool {
    exists|i: int| 0 <= i < s.len() && s[i].id == id
}

/// The sessions of one pipeline, each under its own id. Other components
/// keep only ids and go through the registry, so each session has one owner.
pub struct SessionRegistry {
    sessions: Vec<Session>,
}

impl SessionRegistry {
    /// The registered sessions, in the order they were added.
    pub closed spec fn sessions(&self) -> Seq<Session> {
        self.sessions@
    }

    pub closed spec fn wf(&self) -> bool {
        ids_unique(self.sessions@)
    }

    pub fn new() -> (r: SessionRegistry)
        ensures
            r.wf(),
            r.sessions() == Seq::<Session>::empty(),
    {
        SessionRegistry { sessions: Vec::new() }
    }

    pub fn len(&self) -> (r: usize)
        ensures
            r == self.sessions().len(),
    {
        self.sessions.len()
    }

    /// Position of the session with id `id`, if one is registered.
    fn position(&self, id: u64) -> (r: Option<usize>)
        requires
            self.wf(),
        ensures
            r matches Some(i) ==> i < self.sessions().len() && self.sessions()[i as int].id == id,
            r is None ==> !has_id(self.sessions(), id),
    {
        let mut i: usize = 0;
        while i < self.sessions.len()
            invariant
                i <= self.sessions@.len(),
                forall|k: int| 0 <= k < i ==> self.sessions@[k].id != id,
            decreases self.sessions@.len() - i,
        {
            if self.sessions[i].id == id {
                return Some(i);
            }
            i = i + 1;
        }
        None
    }

    /// Registers a session under its id, unless that id is taken.
    pub fn insert(&mut self, session: Session) -> (r: Result<(), RegistryError>)
        requires
            old(self).wf(),
        ensures
            final(self).wf(),
            r is Ok <==> !has_id(old(self).sessions(), session.id),
            r is Ok ==> final(self).sessions() == old(self).sessions().push(session),
            r is Err ==> r == Err::<(), RegistryError>(RegistryError::DuplicateId)
                && final(self).sessions() == old(self).sessions(),
    {
        match self.position(session.id) {
            Some(_) => Err(RegistryError::DuplicateId),
            None => {
                self.sessions.push(session);
                Ok(())
            },
        }
    }

    /// A copy of the session with id `id`.
    pub fn get(&self, id: u64) -> (r: Option<Session>)
        requires
            self.wf(),
        ensures
            r is None <==> !has_id(self.sessions(), id),
            r matches Some(s) ==> s.id == id && exists|i: int|
                0 <= i < self.sessions().len() && self.sessions()[i] == s,
    {
        match self.position(id) {
            Some(i) => Some(self.sessions[i]),
            None => None,
        }
    }

    /// Applies `event` to the session with id `id`. No other session
    /// changes, whatever the outcome.
    pub fn handle_event(&mut self, id: u64, event: SessionEvent) -> (r: Result<
        SessionState,
        RegistryError,
    >)
        requires
            old(self).wf(),
        ensures
            final(self).wf(),
            !has_id(old(self).sessions(), id) ==> r == Err::<SessionState, RegistryError>(
                RegistryError::UnknownSession,
            ) && final(self).sessions() == old(self).sessions(),
            forall|i: int|
                0 <= i < old(self).sessions().len() && old(self).sessions()[i].id == id ==> {
                    let s = old(self).sessions()[i];
                    match transition(s.state, event) {
                        Some(n) => r == Ok::<SessionState, RegistryError>(n)
                            && final(self).sessions() == old(self).sessions().update(
                            i,
                            Session { state: n, ..s },
                        ),
                        None => r == Err::<SessionState, RegistryError>(
                            RegistryError::Transition(TransitionError { state: s.state, event }),
                        ) && final(self).sessions() == old(self).sessions(),
                    }
                },
    {
        match self.position(id) {
            None => Err(RegistryError::UnknownSession),
            Some(i) => {
                let mut s = self.sessions[i];
                let r = s.handle(event);
                match r {
                    Ok(n) => {
                        self.sessions.set(i, s);
                        assert(self.sessions@ =~= old(self).sessions@.update(
                            i as int,
                            Session { state: n, ..old(self).sessions@[i as int] },
                        ));
                        Ok(n)
                    },
                    Err(e) => Err(RegistryError::Transition(e)),
                }
            },
        }
    }

    /// Applies a feedback report received at `now_ms` to the session with id
    /// `id`, returning its new bitrate target. Only a connected session takes
    /// feedback; no other session changes.
    pub fn apply_feedback(
        &mut self,
        id: u64,
        report: &FeedbackReport,
        bounds: &BitrateBounds,
        now_ms: u64,
    ) -> (r: Option<u32>)
        requires
            old(self).wf(),
            bounds.wf(),
        ensures
            final(self).wf(),
            !has_id(old(self).sessions(), id) ==> r is None && final(self).sessions() == old(
                self,
            ).sessions(),
            forall|i: int|
                0 <= i < old(self).sessions().len() && old(self).sessions()[i].id == id ==> {
                    let s = old(self).sessions()[i];
                    let b = next_target(
                        s.bitrate_bps as int,
                        report.loss as int,
                        bounds.spec_min(),
                        bounds.spec_max(),
                    );
                    if s.state == SessionState::Connected {
                        r == Some(b as u32) && final(self).sessions() == old(
                            self,
                        ).sessions().update(
                            i,
                            Session { bitrate_bps: b as u32, last_feedback_ms: now_ms, ..s },
                        )
                    } else {
                        r is None && final(self).sessions() == old(self).sessions()
                    }
                },
    {
        match self.position(id) {
            None => None,
            Some(i) => {
                let mut s = self.sessions[i];
                if s.apply_feedback(report, bounds, now_ms) {
                    let b = s.bitrate_bps;
                    self.sessions.set(i, s);
                    assert(self.sessions@ =~= old(self).sessions@.update(
                        i as int,
                        Session {
                            bitrate_bps: b,
                            last_feedback_ms: now_ms,
                            ..old(self).sessions@[i as int]
                        },
                    ));
                    Some(b)
                } else {
                    None
                }
            },
        }
    }

    /// Takes the session with id `id` out of the registry.
    pub fn remove(&mut self, id: u64) -> (r: Option<Session>)
        requires
            old(self).wf(),
        ensures
            final(self).wf(),
            r is None <==> !has_id(old(self).sessions(), id),
            r is None ==> final(self).sessions() == old(self).sessions(),
            forall|i: int|
                0 <= i < old(self).sessions().len() && old(self).sessions()[i].id == id ==> r
                    == Some(old(self).sessions()[i]) && final(self).sessions() == old(
                    self,
                ).sessions().remove(i),
            !has_id(final(self).sessions(), id),
    {
        match self.position(id) {
            None => None,
            Some(i) => {
                let s = self.sessions.remove(i);
                assert forall|a: int, b: int|
                    0 <= a < self.sessions@.len() && 0 <= b < self.sessions@.len() && a != b
                        implies #[trigger] self.sessions@[a].id != #[trigger] self.sessions@[b].id by {
                    let a0 = if a < i { a } else { a + 1 };
                    let b0 = if b < i { b } else { b + 1 };
                    assert(self.sessions@[a] == old(self).sessions@[a0]);
                    assert(self.sessions@[b] == old(self).sessions@[b0]);
                }
                assert forall|k: int| 0 <= k < self.sessions@.len() implies
                    #[trigger] self.sessions@[k].id != id by {
                    let k0 = if k < i { k } else { k + 1 };
                    assert(self.sessions@[k] == old(self).sessions@[k0]);
                }
                Some(s)
            },
        }
    }
}

} // verus!
