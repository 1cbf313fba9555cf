use crate::ring::{Frame, FrameRing};
use vstd::prelude::*;

verus! {

/// What a worker does next once shutdown has been signalled.
#[derive(Clone, Copy, Debug, PartialEq, Eq, Structural)]
pub enum ShutdownAction {
    /// Frames are still in flight and the grace period is not over.
    KeepDraining,
    /// The grace period is over: drop what is left and exit.
    ForceClose,
    /// Nothing is left in flight: exit.
    Done,
}

/// The action after `elapsed_ms` of shutdown with `in_flight` frames left.
pub open spec fn shutdown_action(elapsed_ms: nat, grace_ms: nat, in_flight: nat) -> ShutdownAction {
    if in_flight == 0 {
        ShutdownAction::Done
    } else if elapsed_ms >= grace_ms {
        ShutdownAction::ForceClose
    } else {
        ShutdownAction::KeepDraining
    }
}

/// Decides, at each wake-up after shutdown was signalled, whether a worker
/// keeps draining or exits.
pub fn next_shutdown_action(elapsed_ms: u64, grace_ms: u64, in_flight: usize) -> (r:
    ShutdownAction)
    ensures
        r == shutdown_action(elapsed_ms as nat, grace_ms as nat, in_flight as nat),
{
    if in_flight == 0 {
        ShutdownAction::Done
    } else if elapsed_ms >= grace_ms {
        ShutdownAction::ForceClose
    } else {
        ShutdownAction::KeepDraining
    }
}

/// Closes the ring to new frames and releases every frame it still holds,
/// oldest first. The ring is left closed and empty.
pub fn close_and_drain(ring: &mut FrameRing) -> (r: Vec<Frame>)
    requires
        old(ring).wf(),
    ensures
        final(ring).wf(),
        final(ring).spec_closed(),
        final(ring).frames().len() == 0,
        r@ == old(ring).frames(),
{
    ring.close();
    ring.drain()
}

/// No worker drains past the grace period: once it is over, or once nothing
/// is in flight, every worker exits.
pub proof fn lemma_shutdown_within_grace(elapsed_ms: nat, grace_ms: nat, in_flight: nat)
    ensures
        elapsed_ms >= grace_ms ==> shutdown_action(elapsed_ms, grace_ms, in_flight)
            != ShutdownAction::KeepDraining,
        in_flight == 0 ==> shutdown_action(elapsed_ms, grace_ms, in_flight)
            == ShutdownAction::Done,
        shutdown_action(elapsed_ms, grace_ms, in_flight) == ShutdownAction::KeepDraining
            ==> elapsed_ms < grace_ms && in_flight > 0,
{
}

} // verus!
