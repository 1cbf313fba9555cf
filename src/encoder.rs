use crate::ring::{Frame, PixelFormat};
use vstd::prelude::*;

verus! {

/// A frame as it leaves the encoder.
pub struct EncodedFrame {
    /// Position in this encoder's output, counting from 0 with no gaps.
    pub sequence: u64,
    /// The frame decodes without any earlier one.
    pub keyframe: bool,
    pub payload: Vec<u8>,
    /// Capture time of the frame it came from, for latency measurement.
    pub origin_timestamp_us: u64,
    /// The bitrate target the frame was encoded for.
    pub bitrate: u32,
}

/// Why a frame was not encoded.
#[derive(Clone, Copy, Debug, PartialEq, Eq, Structural)]
pub enum EncodeError {
    /// The frame's pixel format or size is not the one the encoder was set
    /// up for; this ends the session.
    Unsupported,
    /// Every sequence number has been used.
    SequenceExhausted,
}

/// The encoder's per-stream state: its input format, the keyframe cadence and
/// the next sequence number.
pub struct Encoder {
    format: PixelFormat,
    width: u32,
    height: u32,
    keyframe_interval: u64,
    next_sequence: u64,
}

/// The frame at position `seq` of a stream is a keyframe: the first one, and
/// every `interval`-th after it.
pub open spec fn is_keyframe_position(seq: nat, interval: nat) -> bool
    recommends
        interval > 0,
{
    seq % interval == 0
}

/// Sequence numbers along `s` count up by one from `start`.
pub open spec fn consecutive_from(s: Seq<EncodedFrame>, start: nat) -> bool {
    forall|i: int| 0 <= i < s.len() ==> #[trigger] s[i].sequence == start + i
}

impl Encoder {
    pub closed spec fn spec_next_sequence(&self) -> nat {
        self.next_sequence as nat
    }

    pub closed spec fn spec_keyframe_interval(&self) -> nat {
        self.keyframe_interval as nat
    }

    pub closed spec fn spec_format(&self) -> PixelFormat {
        self.format
    }

    pub closed spec fn spec_width(&self) -> u32 {
        self.width
    }

    pub closed spec fn spec_height(&self) -> u32 {
        self.height
    }

    /// The frame fits what this encoder was set up for.
    pub open spec fn accepts(&self, frame: Frame) -> bool {
        frame.format == self.spec_format() && frame.width == self.spec_width() && frame.height
            == self.spec_height()
    }

    /// An encoder for frames of one format and size that emits a keyframe
    /// first and then every `keyframe_interval` frames.
    pub fn new(format: PixelFormat, width: u32, height: u32, keyframe_interval: u64) -> (r:
        Encoder)
        requires
            keyframe_interval > 0,
        ensures
            r.spec_next_sequence() == 0,
            r.spec_keyframe_interval() == keyframe_interval,
            r.spec_format() == format,
            r.spec_width() == width,
            r.spec_height() == height,
    {
        Encoder { format, width, height, keyframe_interval, next_sequence: 0 }
    }

    /// Encodes one frame for the given bitrate target.
    ///
    /// The output takes the next sequence number; the first frame and every
    /// `keyframe_interval`-th after it are keyframes. A frame that does not
    /// fit the encoder is refused and uses no sequence number.
    pub fn encode(&mut self, frame: Frame, target_bitrate: u32) -> (r: Result<
        EncodedFrame,
        EncodeError,
    >)
        requires
            old(self).spec_keyframe_interval() > 0,
        ensures
            final(self).spec_keyframe_interval() == old(self).spec_keyframe_interval(),
            final(self).spec_format() == old(self).spec_format(),
            final(self).spec_width() == old(self).spec_width(),
            final(self).spec_height() == old(self).spec_height(),
            !old(self).accepts(frame) ==> r == Err::<EncodedFrame, EncodeError>(
                EncodeError::Unsupported,
            ),
            old(self).accepts(frame) && old(self).spec_next_sequence() == u64::MAX ==> r
                == Err::<EncodedFrame, EncodeError>(EncodeError::SequenceExhausted),
            r is Err ==> final(self).spec_next_sequence() == old(self).spec_next_sequence(),
            r is Ok <==> old(self).accepts(frame) && old(self).spec_next_sequence() < u64::MAX,
            r matches Ok(e) ==> {
                &&& e.sequence == old(self).spec_next_sequence()
                &&& final(self).spec_next_sequence() == old(self).spec_next_sequence() + 1
                &&& e.keyframe == is_keyframe_position(
                    e.sequence as nat,
                    old(self).spec_keyframe_interval(),
                )
                &&& e.payload@ == frame.pixels@
                &&& e.origin_timestamp_us == frame.timestamp_us
                &&& e.bitrate == target_bitrate
            },
    {
        if frame.format != self.format || frame.width != self.width || frame.height
            != self.height {
            return Err(EncodeError::Unsupported);
        }
        if self.next_sequence == u64::MAX {
            return Err(EncodeError::SequenceExhausted);
        }
        let sequence = self.next_sequence;
        self.next_sequence = sequence + 1;
        Ok(
            EncodedFrame {
                sequence,
                keyframe: sequence % self.keyframe_interval == 0,
                payload: frame.pixels,
                origin_timestamp_us: frame.timestamp_us,
                bitrate: target_bitrate,
            },
        )
    }

    /// The sequence number the next encoded frame will carry.
    pub fn next_sequence(&self) -> (r: u64)
        ensures
            r == self.spec_next_sequence(),
    {
        self.next_sequence
    }
}

/// Encodes frames in order until one fails, which is dropped and ends the run.
/// The outputs carry consecutive sequence numbers from the encoder's next one.
pub fn encode_all(encoder: &mut Encoder, frames: Vec<Frame>, target_bitrate: u32) -> (r: Vec<
    EncodedFrame,
>)
    requires
        old(encoder).spec_keyframe_interval() > 0,
    ensures
        r@.len() <= frames@.len(),
        consecutive_from(r@, old(encoder).spec_next_sequence()),
        final(encoder).spec_next_sequence() == old(encoder).spec_next_sequence() + r@.len(),
        final(encoder).spec_keyframe_interval() == old(encoder).spec_keyframe_interval(),
        forall|i: int|
            0 <= i < r@.len() ==> #[trigger] r@[i].keyframe == is_keyframe_position(
                r@[i].sequence as nat,
                old(encoder).spec_keyframe_interval(),
            ) && r@[i].origin_timestamp_us == frames@[i].timestamp_us && r@[i].payload@
                == frames@[i].pixels@ && r@[i].bitrate == target_bitrate,
        r@.len() < frames@.len() ==> !(old(encoder).accepts(frames@[r@.len() as int])
            && final(encoder).spec_next_sequence() < u64::MAX),
{
    let mut out: Vec<EncodedFrame> = Vec::new();
    let mut rest = frames;
    let ghost all = rest@;
    let ghost start = encoder.spec_next_sequence();
    while rest.len() > 0
        invariant
            old(encoder).spec_keyframe_interval() > 0,
            encoder.spec_keyframe_interval() == old(encoder).spec_keyframe_interval(),
            encoder.spec_format() == old(encoder).spec_format(),
            encoder.spec_width() == old(encoder).spec_width(),
            encoder.spec_height() == old(encoder).spec_height(),
            start == old(encoder).spec_next_sequence(),
            all == frames@,
            out@.len() + rest@.len() == all.len(),
            rest@ == all.subrange(out@.len() as int, all.len() as int),
            consecutive_from(out@, start),
            encoder.spec_next_sequence() == start + out@.len(),
            forall|i: int|
                0 <= i < out@.len() ==> #[trigger] out@[i].keyframe == is_keyframe_position(
                    out@[i].sequence as nat,
                    old(encoder).spec_keyframe_interval(),
                ) && out@[i].origin_timestamp_us == all[i].timestamp_us && out@[i].payload@
                    == all[i].pixels@ && out@[i].bitrate == target_bitrate,
        decreases rest@.len(),
    {
        let frame = rest.remove(0);
        let ghost k = out@.len() as int;
        assert(frame == all[k]);
        match encoder.encode(frame, target_bitrate) {
            Ok(e) => {
                out.push(e);
                assert(rest@ =~= all.subrange(out@.len() as int, all.len() as int));
            },
            Err(_) => {
                return out;
            },
        }
    }
    out
}

/// Sequence numbers that count up by one are strictly increasing and leave
/// no gap: this holds of every run of the encoder's output.
pub proof fn lemma_sequence_gap_free(s: Seq<EncodedFrame>, start: nat)
    requires
        consecutive_from(s, start),
    ensures
        forall|i: int, j: int| 0 <= i < j < s.len() ==> #[trigger] s[i].sequence < #[trigger] s[j].sequence,
        forall|i: int| 0 <= i < s.len() - 1 ==> #[trigger] s[i + 1].sequence == s[i].sequence + 1,
{
    assert forall|i: int, j: int| 0 <= i < j < s.len() implies #[trigger] s[i].sequence
        < #[trigger] s[j].sequence by {
        assert(s[i].sequence == start + i);
        assert(s[j].sequence == start + j);
    }
    assert forall|i: int| 0 <= i < s.len() - 1 implies #[trigger] s[i + 1].sequence == s[i].sequence
        + 1 by {
        assert(s[i].sequence == start + i);
        assert(s[i + 1].sequence == start + i + 1);
    }
}

} // verus!
