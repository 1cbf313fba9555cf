use vstd::prelude::*;

verus! {

/// Capture ticks skipped between a frame taken at `prev_us` and the next one
/// taken at `now_us`, on a cadence of `interval_us`: whole intervals elapsed,
/// less the one that was due.
pub open spec fn missed(prev_us: nat, now_us: nat, interval_us: nat) -> nat {
    let ticks = (now_us - prev_us) / interval_us as int;
    if ticks <= 1 {
        0
    } else {
        (ticks - 1) as nat
    }
}

/// How many capture ticks were skipped between two frames, from their actual
/// capture times, so that pacing can notice drift under overload.
pub fn missed_ticks(prev_us: u64, now_us: u64, interval_us: u64) -> (r: u64)
    requires
        prev_us < now_us,
        interval_us > 0,
    ensures
        r == missed(prev_us as nat, now_us as nat, interval_us as nat),
{
    let ticks = (now_us - prev_us) / interval_us;
    if ticks <= 1 {
        0
    } else {
        ticks - 1
    }
}

/// Microseconds between capture ticks at `fps` frames per second.
pub fn frame_interval_us(fps: u32) -> (r: u64)
    requires
        fps > 0,
    ensures
        r == 1000000int / (fps as int),
{
    1000000 / fps as u64
}

} // verus!
