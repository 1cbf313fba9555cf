use crate::encoder::EncodedFrame;
use vstd::prelude::*;

verus! {

/// One transport-sized piece of an encoded frame, tagged for the wire.
pub struct Packet {
    pub session_id: u64,
    pub sequence: u64,
    pub keyframe: bool,
    /// Position of this piece within its frame.
    pub fragment_index: usize,
    /// How many pieces the frame was cut into.
    pub fragment_count: usize,
    pub payload: Vec<u8>,
}

/// How many pieces of at most `max` bytes a payload of `len` bytes takes; an
/// empty payload still takes one, so that the frame is announced.
pub open spec fn fragment_count(len: nat, max: nat) -> nat
    recommends
        max > 0,
{
    if len == 0 {
        1
    } else {
        ((len + max - 1) as int / max as int) as nat
    }
}

/// The bytes of piece `i` when `payload` is cut into pieces of `max` bytes.
pub open spec fn fragment(payload: Seq<u8>, i: nat, max: nat) -> Seq<u8> {
    let lo = i * max;
    let hi = if (i + 1) * max < payload.len() {
        (i + 1) * max
    } else {
        payload.len()
    };
    payload.subrange(lo as int, hi as int)
}

fn copy_range(src: &Vec<u8>, lo: usize, hi: usize) -> (r: Vec<u8>)
    requires
        lo <= hi <= src@.len(),
    ensures
        r@ == src@.subrange(lo as int, hi as int),
{
    let mut out: Vec<u8> = Vec::new();
    let mut k: usize = lo;
    while k < hi
        invariant
            lo <= k <= hi <= src@.len(),
            out@ == src@.subrange(lo as int, k as int),
        decreases hi - k,
    {
        out.push(src[k]);
        k = k + 1;
        assert(out@ =~= src@.subrange(lo as int, k as int));
    }
    out
}

/// Cuts an encoded frame of one session into pieces of at most
/// `max_payload` bytes, in order, each tagged with the session id, the
/// frame's sequence number and keyframe flag, and its place in the frame.
pub fn packetize(session_id: u64, frame: &EncodedFrame, max_payload: usize) -> (r: Vec<Packet>)
    requires
        max_payload > 0,
    ensures
        r@.len() == fragment_count(frame.payload@.len(), max_payload as nat),
        forall|i: int|
            0 <= i < r@.len() ==> {
                let p = #[trigger] r@[i];
                &&& p.session_id == session_id
                &&& p.sequence == frame.sequence
                &&& p.keyframe == frame.keyframe
                &&& p.fragment_index == i
                &&& p.fragment_count == r@.len()
                &&& p.payload@ == fragment(frame.payload@, i as nat, max_payload as nat)
            },
{
    let len = frame.payload.len();
    proof {
        let m = max_payload as int;
        let l = len as int;
        if l > 0 {
            assert((l + m - 1) / m == l / m + if l % m == 0 { 0int } else { 1int }) by (nonlinear_arith)
                requires m > 0, l > 0;
            assert(l / m + (if l % m == 0 { 0int } else { 1int }) <= l) by (nonlinear_arith)
                requires m > 0, l > 0;
        }
    }
    let count: usize = if len == 0 {
        1
    } else {
        len / max_payload + if len % max_payload == 0 { 0 } else { 1 }
    };
    proof {
        let m = max_payload as int;
        let l = len as int;
        assert((count - 1) * m < l || l == 0) by (nonlinear_arith)
            requires m > 0, l >= 0,
                count == (if l == 0 { 1int } else { l / m + if l % m == 0 { 0int } else { 1int } });
    }
    let mut out: Vec<Packet> = Vec::new();
    let mut i: usize = 0;
    while i < count
        invariant
            len == frame.payload@.len(),
            max_payload > 0,
            count == fragment_count(len as nat, max_payload as nat),
            (count - 1) * max_payload < len || len == 0,
            len == 0 ==> count == 1,
            i <= count,
            out@.len() == i,
            forall|j: int|
                0 <= j < i ==> {
                    let p = #[trigger] out@[j];
                    &&& p.session_id == session_id
                    &&& p.sequence == frame.sequence
                    &&& p.keyframe == frame.keyframe
                    &&& p.fragment_index == j
                    &&& p.fragment_count == count
                    &&& p.payload@ == fragment(frame.payload@, j as nat, max_payload as nat)
                },
        decreases count - i,
    {
        proof {
            assert(i * max_payload <= (count - 1) * max_payload) by (nonlinear_arith)
                requires i < count, max_payload > 0;
            if len == 0 {
                assert(i == 0);
            }
            assert(i * max_payload <= len);
        }
        let lo = i * max_payload;
        let hi = if len - lo > max_payload { lo + max_payload } else { len };
        proof {
            assert((i + 1) * max_payload == lo + max_payload) by (nonlinear_arith)
                requires lo == i * max_payload;
        }
        let payload = copy_range(&frame.payload, lo, hi);
        out.push(Packet {
            session_id,
            sequence: frame.sequence,
            keyframe: frame.keyframe,
            fragment_index: i,
            fragment_count: count,
            payload,
        });
        i = i + 1;
    }
    out
}

} // verus!
