use crate::utils::{bitrate_shown, lemma_bitrate_shown_monotone};
use vstd::prelude::*;

verus! {

/// Loss fractions are counted in basis points: 10000 is all packets lost.
pub const LOSS_SCALE: u32 = 10000;

/// Loss above this (10%) cuts the bitrate sharply.
pub const HIGH_WATER_LOSS: u32 = 1000;

/// Loss below this (2%) lets the bitrate grow.
pub const LOW_WATER_LOSS: u32 = 200;

/// Bits per second added after each report of low loss.
pub const ADDITIVE_STEP_BPS: u32 = 50000;

/// What the receiver reports of the network.
#[derive(Clone, Copy, Debug, PartialEq, Eq, Structural)]
pub struct FeedbackReport {
    /// Fraction of packets lost, in basis points (`LOSS_SCALE` is all).
    pub loss: u32,
    /// Round-trip estimate in milliseconds.
    pub rtt_ms: u32,
    /// How full the receiver's buffer is, in basis points.
    pub receiver_fill: u32,
}

/// The range a session's bitrate target is kept in.
#[derive(Clone, Copy, Debug, PartialEq, Eq, Structural)]
pub struct BitrateBounds {
    min_bps: u32,
    max_bps: u32,
}

pub open spec fn clamp(x: int, lo: int, hi: int) -> int {
    if x < lo {
        lo
    } else if x > hi {
        hi
    } else {
        x
    }
}

/// The bitrate target after a report of `loss` when the target was
/// `current`: cut by 30% above the high-water loss, raised by one step below
/// the low-water loss, kept in between; then clamped to `[min, max]`.
pub open spec fn next_target(current: int, loss: int, min: int, max: int) -> int {
    let raw = if loss > HIGH_WATER_LOSS {
        current * 7 / 10
    } else if loss < LOW_WATER_LOSS {
        current + ADDITIVE_STEP_BPS
    } else {
        current
    };
    clamp(raw, min, max)
}

impl BitrateBounds {
    pub closed spec fn spec_min(&self) -> int {
        self.min_bps as int
    }

    pub closed spec fn spec_max(&self) -> int {
        self.max_bps as int
    }

    pub closed spec fn wf(&self) -> bool {
        self.min_bps <= self.max_bps
    }

    /// Bounds from `min_bps` to `max_bps`, or None when `min_bps > max_bps`.
    pub fn new(min_bps: u32, max_bps: u32) -> (r: Option<BitrateBounds>)
        ensures
            r is Some <==> min_bps <= max_bps,
            r matches Some(b) ==> b.wf() && b.spec_min() == min_bps && b.spec_max() == max_bps,
    {
        if min_bps <= max_bps {
            Some(BitrateBounds { min_bps, max_bps })
        } else {
            None
        }
    }

    pub fn min_bps(&self) -> (r: u32)
        ensures
            r == self.spec_min(),
    {
        self.min_bps
    }

    pub fn max_bps(&self) -> (r: u32)
        ensures
            r == self.spec_max(),
    {
        self.max_bps
    }

    /// Narrows the bounds to `[min_bps, max_bps]` at run time. Bounds only
    /// ever narrow: a range that is empty or reaches outside the current one
    /// is refused, and the bounds stay as they were.
    pub fn narrow(&mut self, min_bps: u32, max_bps: u32) -> (r: bool)
        requires
            old(self).wf(),
        ensures
            final(self).wf(),
            r <==> old(self).spec_min() <= min_bps && min_bps <= max_bps && max_bps
                <= old(self).spec_max(),
            r ==> final(self).spec_min() == min_bps && final(self).spec_max() == max_bps,
            !r ==> *final(self) == *old(self),
    {
        if self.min_bps <= min_bps && min_bps <= max_bps && max_bps <= self.max_bps {
            self.min_bps = min_bps;
            self.max_bps = max_bps;
            true
        } else {
            false
        }
    }

    /// The bitrate target after `report`, when the target was `current_bps`.
    pub fn next_bitrate(&self, current_bps: u32, report: &FeedbackReport) -> (r: u32)
        requires
            self.wf(),
        ensures
            r == next_target(current_bps as int, report.loss as int, self.spec_min(), self.spec_max()),
    {
        let raw: u64 = if report.loss > HIGH_WATER_LOSS {
            current_bps as u64 * 7 / 10
        } else if report.loss < LOW_WATER_LOSS {
            current_bps as u64 + ADDITIVE_STEP_BPS as u64
        } else {
            current_bps as u64
        };
        if raw < self.min_bps as u64 {
            self.min_bps
        } else if raw > self.max_bps as u64 {
            self.max_bps
        } else {
            raw as u32
        }
    }
}

/// Each report moves the target the way the loss asks and never out of
/// bounds: above the high-water loss it drops (unless it is already at the
/// minimum), below the low-water loss it does not drop (unless it stood above
/// the maximum), and it always lands within `[min, max]`.
pub proof fn lemma_bitrate_response(current: int, loss: int, min: int, max: int)
    requires
        0 <= min <= max,
        0 <= current,
    ensures
        min <= next_target(current, loss, min, max) <= max,
        loss > HIGH_WATER_LOSS && current > min ==> next_target(current, loss, min, max)
            < current,
        loss < LOW_WATER_LOSS && current <= max ==> next_target(current, loss, min, max)
            >= current,
{
}

/// What reports show follows the policy: after a high-loss cut the target
/// never shows as higher than before (unless it stood below the minimum),
/// after a low-loss report never as lower
/// (unless it stood above the maximum), and it always shows between the
/// shown minimum and maximum.
pub proof fn lemma_bitrate_response_shown(current: int, loss: int, min: int, max: int)
    requires
        0 <= min <= max,
        0 <= current,
    ensures
        bitrate_shown(min as nat) <= bitrate_shown(next_target(current, loss, min, max) as nat)
            <= bitrate_shown(max as nat),
        loss > HIGH_WATER_LOSS && current >= min ==> bitrate_shown(
            next_target(current, loss, min, max) as nat,
        ) <= bitrate_shown(current as nat),
        loss < LOW_WATER_LOSS && current <= max ==> bitrate_shown(current as nat)
            <= bitrate_shown(next_target(current, loss, min, max) as nat),
{
    let n = next_target(current, loss, min, max);
    lemma_bitrate_response(current, loss, min, max);
    lemma_bitrate_shown_monotone(min as nat, n as nat);
    lemma_bitrate_shown_monotone(n as nat, max as nat);
    if loss > HIGH_WATER_LOSS && current >= min {
        assert(n <= current);
        lemma_bitrate_shown_monotone(n as nat, current as nat);
    }
    if loss < LOW_WATER_LOSS && current <= max {
        lemma_bitrate_shown_monotone(current as nat, n as nat);
    }
}

} // verus!
