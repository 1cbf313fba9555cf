use std::collections::VecDeque;
use vstd::prelude::*;

verus! {

/// How the pixels of a frame are laid out.
#[derive(Clone, Copy, Debug, PartialEq, Eq, Structural)]
pub enum PixelFormat {
    Bgra8,
    Rgba8,
    Nv12,
}

/// One captured picture of the display.
pub struct Frame {
    /// Actual capture time, microseconds on a monotonic clock.
    pub timestamp_us: u64,
    pub width: u32,
    pub height: u32,
    pub format: PixelFormat,
    pub pixels: Vec<u8>,
}

/// Why a frame was not taken into the ring.
#[derive(Clone, Copy, Debug, PartialEq, Eq, Structural)]
pub enum PushError {
    /// Its timestamp is not later than that of the frame pushed before it.
    OutOfOrder,
    /// The ring was closed for shutdown.
    Closed,
}

/// What the consumer gets from the ring.
pub enum Popped {
    Frame(Frame),
    /// Nothing is buffered yet; try again after the next capture tick.
    Empty,
    /// The ring was closed and every buffered frame has been handed out.
    Closed,
}

/// Timestamps strictly increase along `s`.
pub open spec fn strictly_increasing(s: Seq<Frame>) -> bool {
    forall|i: int, j: int| 0 <= i < j < s.len() ==> s[i].timestamp_us < s[j].timestamp_us
}

/// The frames held after pushing `f` onto `s` in a ring of capacity `cap`:
/// when the ring is full the oldest frame is evicted to make room.
pub open spec fn retained(s: Seq<Frame>, f: Frame, cap: nat) -> Seq<Frame> {
    if s.len() + 1 < cap {
        s.push(f)
    } else {
        s.drop_first().push(f)
    }
}

/// The frames held after pushing each of `fs`, in order, onto `s`.
pub open spec fn retained_all(s: Seq<Frame>, fs: Seq<Frame>, cap: nat) -> Seq<Frame>
    decreases fs.len(),
{
    if fs.len() == 0 {
        s
    } else {
        retained_all(retained(s, fs[0], cap), fs.drop_first(), cap)
    }
}

/// A bounded frame queue between the capture cadence and the encoder.
///
/// A ring of capacity `n` keeps one slot free to tell a full ring from an
/// empty one, so it holds at most `n - 1` frames. Pushing onto a full ring
/// evicts the oldest unread frame: freshness wins over completeness, and
/// the producer never waits.
pub struct FrameRing {
    frames: VecDeque<Frame>,
    capacity: usize,
    last_timestamp: Option<u64>,
    closed: bool,
    dropped: u64,
}

impl FrameRing {
    /// The buffered frames, oldest first.
    pub closed spec fn frames(&self) -> Seq<Frame> {
        self.frames@
    }

    pub closed spec fn spec_capacity(&self) -> nat {
        self.capacity as nat
    }

    pub closed spec fn spec_closed(&self) -> bool {
        self.closed
    }

    /// Timestamp of the last frame accepted, if any.
    pub closed spec fn spec_last_timestamp(&self) -> Option<u64> {
        self.last_timestamp
    }

    pub closed spec fn spec_dropped(&self) -> nat {
        self.dropped as nat
    }

    pub closed spec fn wf(&self) -> bool {
        &&& self.capacity >= 2
        &&& self.frames@.len() < self.capacity
        &&& strictly_increasing(self.frames@)
        &&& self.frames@.len() > 0 ==> self.last_timestamp is Some
        &&& forall|i: int|
            0 <= i < self.frames@.len() ==> self.frames@[i].timestamp_us
                <= self.last_timestamp->0
    }

    /// A lemma for callers: a well-formed ring holds fewer frames than its
    /// capacity, in strictly increasing timestamp order.
    pub proof fn lemma_wf(&self)
        requires
            self.wf(),
        ensures
            self.spec_capacity() >= 2,
            self.frames().len() < self.spec_capacity(),
            strictly_increasing(self.frames()),
    {
    }

    /// An empty, open ring of the given capacity.
    pub fn new(capacity: usize) -> (r: FrameRing)
        requires
            capacity >= 2,
        ensures
            r.wf(),
            r.frames() == Seq::<Frame>::empty(),
            r.spec_capacity() == capacity,
            !r.spec_closed(),
            r.spec_last_timestamp() is None,
            r.spec_dropped() == 0,
    {
        FrameRing {
            frames: VecDeque::new(),
            capacity,
            last_timestamp: None,
            closed: false,
            dropped: 0,
        }
    }

    /// Offers a frame to the ring, evicting the oldest one if it is full.
    ///
    /// A closed ring takes nothing, and a frame no later than the one pushed
    /// before it is refused, so frames leave in timestamp order.
    pub fn push(&mut self, frame: Frame) -> (r: Result<(), PushError>)
        requires
            old(self).wf(),
        ensures
            final(self).wf(),
            final(self).spec_capacity() == old(self).spec_capacity(),
            final(self).spec_closed() == old(self).spec_closed(),
            old(self).spec_closed() ==> r == Err::<(), PushError>(PushError::Closed),
            !old(self).spec_closed() && old(self).spec_last_timestamp() is Some
                && frame.timestamp_us <= old(self).spec_last_timestamp()->0
                ==> r == Err::<(), PushError>(PushError::OutOfOrder),
            r is Err ==> final(self).frames() == old(self).frames()
                && final(self).spec_last_timestamp() == old(self).spec_last_timestamp()
                && final(self).spec_dropped() == old(self).spec_dropped(),
            r is Ok <==> !old(self).spec_closed() && (old(self).spec_last_timestamp() is None
                || old(self).spec_last_timestamp()->0 < frame.timestamp_us),
            r is Ok ==> final(self).frames() == retained(
                old(self).frames(),
                frame,
                old(self).spec_capacity(),
            ) && final(self).spec_last_timestamp() == Some(frame.timestamp_us)
                && final(self).spec_dropped() == (if old(self).frames().len() + 1
                < old(self).spec_capacity() {
                old(self).spec_dropped()
            } else if old(self).spec_dropped() < u64::MAX {
                old(self).spec_dropped() + 1
            } else {
                old(self).spec_dropped()
            }),
    {
        if self.closed {
            return Err(PushError::Closed);
        }
        match self.last_timestamp {
            Some(t) => {
                if frame.timestamp_us <= t {
                    return Err(PushError::OutOfOrder);
                }
            },
            None => {},
        }
        let ghost before = self.frames@;
        if self.frames.len() + 1 >= self.capacity {
            let _evicted = self.frames.pop_front();
            if self.dropped < u64::MAX {
                self.dropped = self.dropped + 1;
            }
        }
        let ts = frame.timestamp_us;
        self.frames.push_back(frame);
        self.last_timestamp = Some(ts);
        assert(self.frames@ =~= retained(before, self.frames@.last(), self.capacity as nat));
        Ok(())
    }

    /// Takes the oldest buffered frame. A closed ring still hands out what it
    /// holds, and reports `Closed` once it is empty.
    pub fn pop(&mut self) -> (r: Popped)
        requires
            old(self).wf(),
        ensures
            final(self).wf(),
            final(self).spec_capacity() == old(self).spec_capacity(),
            final(self).spec_closed() == old(self).spec_closed(),
            final(self).spec_last_timestamp() == old(self).spec_last_timestamp(),
            final(self).spec_dropped() == old(self).spec_dropped(),
            old(self).frames().len() > 0 ==> r == Popped::Frame(old(self).frames()[0])
                && final(self).frames() == old(self).frames().drop_first(),
            old(self).frames().len() == 0 ==> final(self).frames() == old(self).frames()
                && (if old(self).spec_closed() {
                r is Closed
            } else {
                r is Empty
            }),
    {
        match self.frames.pop_front() {
            Some(f) => {
                assert(self.frames@ =~= old(self).frames@.drop_first());
                Popped::Frame(f)
            },
            None => {
                if self.closed {
                    Popped::Closed
                } else {
                    Popped::Empty
                }
            },
        }
    }

    /// Stops taking new frames; what is buffered can still be popped.
    pub fn close(&mut self)
        requires
            old(self).wf(),
        ensures
            final(self).wf(),
            final(self).spec_closed(),
            final(self).frames() == old(self).frames(),
            final(self).spec_capacity() == old(self).spec_capacity(),
            final(self).spec_last_timestamp() == old(self).spec_last_timestamp(),
            final(self).spec_dropped() == old(self).spec_dropped(),
    {
        self.closed = true;
    }

    /// Hands out every buffered frame, oldest first, leaving the ring empty.
    pub fn drain(&mut self) -> (r: Vec<Frame>)
        requires
            old(self).wf(),
        ensures
            final(self).wf(),
            r@ == old(self).frames(),
            final(self).frames().len() == 0,
            final(self).spec_closed() == old(self).spec_closed(),
            final(self).spec_capacity() == old(self).spec_capacity(),
            final(self).spec_last_timestamp() == old(self).spec_last_timestamp(),
            final(self).spec_dropped() == old(self).spec_dropped(),
    {
        let mut out: Vec<Frame> = Vec::new();
        let ghost all = self.frames@;
        while self.frames.len() > 0
            invariant
                self.wf(),
                self.capacity == old(self).capacity,
                self.closed == old(self).closed,
                self.last_timestamp == old(self).last_timestamp,
                self.dropped == old(self).dropped,
                all == old(self).frames@,
                out@ + self.frames@ == all,
            decreases self.frames@.len(),
        {
            let ghost cur = self.frames@;
            match self.frames.pop_front() {
                Some(f) => {
                    out.push(f);
                    assert(out@ + self.frames@ =~= all) by {
                        assert(cur =~= seq![cur[0]] + cur.drop_first());
                    }
                },
                None => {},
            }
        }
        assert(out@ =~= all);
        out
    }

    /// Number of buffered frames.
    pub fn len(&self) -> (r: usize)
        requires
            self.wf(),
        ensures
            r == self.frames().len(),
    {
        self.frames.len()
    }

    pub fn is_empty(&self) -> (r: bool)
        requires
            self.wf(),
        ensures
            r <==> self.frames().len() == 0,
    {
        self.frames.len() == 0
    }

    pub fn capacity(&self) -> (r: usize)
        ensures
            r == self.spec_capacity(),
    {
        self.capacity
    }

    pub fn is_closed(&self) -> (r: bool)
        ensures
            r == self.spec_closed(),
    {
        self.closed
    }

    /// Number of frames evicted unread, saturating at `u64::MAX`.
    pub fn dropped(&self) -> (r: u64)
        ensures
            r == self.spec_dropped(),
    {
        self.dropped
    }

    /// Timestamp of the buffered frame at `index`, oldest first.
    pub fn timestamp_at(&self, index: usize) -> (r: u64)
        requires
            self.wf(),
            index < self.frames().len(),
        ensures
            r == self.frames()[index as int].timestamp_us,
    {
        self.frames[index].timestamp_us
    }
}

/// The last `k` elements of `q`, or all of it when it is shorter.
pub open spec fn newest(q: Seq<Frame>, k: nat) -> Seq<Frame> {
    if q.len() <= k {
        q
    } else {
        q.subrange(q.len() - k, q.len() as int)
    }
}

proof fn lemma_newest_of_newest(a: Seq<Frame>, b: Seq<Frame>, k: nat)
    ensures
        newest(newest(a, k) + b, k) == newest(a + b, k),
{
    let lhs = newest(newest(a, k) + b, k);
    let rhs = newest(a + b, k);
    assert(lhs.len() == rhs.len());
    assert forall|i: int| 0 <= i < lhs.len() implies lhs[i] == rhs[i] by {
        let na = newest(a, k);
        let off_l = (na + b).len() - lhs.len();
        let off_r = (a + b).len() - rhs.len();
        let jl = i + off_l;
        let jr = i + off_r;
        assert(lhs[i] == (na + b)[jl]);
        assert(rhs[i] == (a + b)[jr]);
        if jl < na.len() {
            assert((na + b)[jl] == na[jl]);
            assert(na[jl] == a[jl + (a.len() - na.len())]);
        } else {
            assert((na + b)[jl] == b[jl - na.len()]);
        }
    }
    assert(lhs =~= rhs);
}

/// Pushing frames one by one keeps exactly the newest `cap - 1` of
/// everything pushed, oldest first: older frames are the ones evicted.
pub proof fn lemma_pushes_keep_newest(s: Seq<Frame>, fs: Seq<Frame>, cap: nat)
    requires
        cap >= 2,
        s.len() < cap,
    ensures
        retained_all(s, fs, cap) == newest(s + fs, (cap - 1) as nat),
    decreases fs.len(),
{
    let k = (cap - 1) as nat;
    if fs.len() == 0 {
        assert(s + fs =~= s);
    } else {
        let f = fs[0];
        let rest = fs.drop_first();
        let t = retained(s, f, cap);
        assert(t =~= newest(s.push(f), k));
        lemma_pushes_keep_newest(t, rest, cap);
        lemma_newest_of_newest(s.push(f), rest, k);
        assert(s.push(f) + rest =~= s + fs);
    }
}

/// However many frames are pushed, a ring never holds more than its capacity
/// allows, the frames it keeps stay in timestamp order, and the newest frame
/// pushed is always kept, last.
pub proof fn lemma_pushes_stay_bounded_and_ordered(s: Seq<Frame>, fs: Seq<Frame>, cap: nat)
    requires
        cap >= 2,
        s.len() < cap,
        strictly_increasing(s + fs),
    ensures
        retained_all(s, fs, cap).len() < cap,
        strictly_increasing(retained_all(s, fs, cap)),
        fs.len() > 0 ==> retained_all(s, fs, cap).last() == fs.last(),
    decreases fs.len(),
{
    if fs.len() > 0 {
        let t = retained(s, fs[0], cap);
        let rest = fs.drop_first();
        let whole = s + fs;
        assert(s.push(fs[0]) + rest =~= whole);
        if s.len() + 1 < cap {
            assert(t + rest =~= whole);
        } else {
            assert(t + rest =~= whole.drop_first());
            assert forall|i: int, j: int| 0 <= i < j < (t + rest).len() implies
                #[trigger] (t + rest)[i].timestamp_us < #[trigger] (t + rest)[j].timestamp_us by {
                assert((t + rest)[i] == whole[i + 1]);
                assert((t + rest)[j] == whole[j + 1]);
            }
        }
        lemma_pushes_stay_bounded_and_ordered(t, rest, cap);
        if rest.len() == 0 {
            assert(fs.last() == fs[0]);
        } else {
            assert(rest.last() == fs.last());
        }
    }
}

} // verus!
