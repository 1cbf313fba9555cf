use vstd::prelude::*;

verus! {

/// Pointer-move packet: kind, then x and y as big-endian `u16`.
pub const KIND_POINTER_MOVE: u8 = 1;

/// Pointer-click packet: kind, x and y as big-endian `u16`, then the button.
pub const KIND_POINTER_CLICK: u8 = 2;

/// Key packet: kind, the key code as a big-endian `u16`, then 1 for a press
/// or 0 for a release.
pub const KIND_KEY: u8 = 3;

/// What a remote viewer did.
#[derive(Clone, Copy, Debug, PartialEq, Eq, Structural)]
pub enum InputAction {
    PointerMove { x: u16, y: u16 },
    PointerClick { x: u16, y: u16, button: u8 },
    Key { code: u16, pressed: bool },
}

/// A remote input event, tagged with the session it came from.
#[derive(Clone, Copy, Debug, PartialEq, Eq, Structural)]
pub struct InputEvent {
    pub session_id: u64,
    pub timestamp_ms: u64,
    pub action: InputAction,
}

/// An input packet as the transport received it.
pub struct InboundInput {
    pub session_id: u64,
    pub timestamp_ms: u64,
    pub bytes: Vec<u8>,
}

/// The outcome of reading one input packet.
#[derive(Clone, Copy, Debug, PartialEq, Eq, Structural)]
pub enum Decoded {
    Event(InputEvent),
    /// A kind this side does not know: ignored, not an error.
    Unknown,
    /// Empty, the wrong length for its kind, or a bad field: discarded.
    Corrupt,
}

pub open spec fn be16(b: Seq<u8>, i: int) -> u16 {
    (b[i] as nat * 256 + b[i + 1] as nat) as u16
}

/// What the packet `b` of session `sid`, received at `ts`, reads as.
pub open spec fn decode_spec(sid: u64, ts: u64, b: Seq<u8>) -> Decoded {
    if b.len() == 0 {
        Decoded::Corrupt
    } else if b[0] == KIND_POINTER_MOVE {
        if b.len() == 5 {
            Decoded::Event(
                InputEvent {
                    session_id: sid,
                    timestamp_ms: ts,
                    action: InputAction::PointerMove { x: be16(b, 1), y: be16(b, 3) },
                },
            )
        } else {
            Decoded::Corrupt
        }
    } else if b[0] == KIND_POINTER_CLICK {
        if b.len() == 6 {
            Decoded::Event(
                InputEvent {
                    session_id: sid,
                    timestamp_ms: ts,
                    action: InputAction::PointerClick { x: be16(b, 1), y: be16(b, 3), button: b[5] },
                },
            )
        } else {
            Decoded::Corrupt
        }
    } else if b[0] == KIND_KEY {
        if b.len() == 4 && b[3] <= 1 {
            Decoded::Event(
                InputEvent {
                    session_id: sid,
                    timestamp_ms: ts,
                    action: InputAction::Key { code: be16(b, 1), pressed: b[3] == 1 },
                },
            )
        } else {
            Decoded::Corrupt
        }
    } else {
        Decoded::Unknown
    }
}

/// The events handed to the injector for session `sid` out of the packets
/// `ps`: its well-formed events of known kinds, in receipt order.
pub open spec fn delivered(ps: Seq<InboundInput>, sid: u64) -> Seq<InputEvent>
    decreases ps.len(),
{
    if ps.len() == 0 {
        Seq::empty()
    } else {
        let before = delivered(ps.drop_last(), sid);
        let p = ps.last();
        if p.session_id == sid {
            match decode_spec(p.session_id, p.timestamp_ms, p.bytes@) {
                Decoded::Event(e) => before.push(e),
                _ => before,
            }
        } else {
            before
        }
    }
}

fn read_be16(b: &Vec<u8>, i: usize) -> (r: u16)
    requires
        i < 8,
        i + 1 < b@.len(),
    ensures
        r == be16(b@, i as int),
{
    let hi = b[i] as u16;
    let lo = b[i + 1] as u16;
    hi * 256 + lo
}

/// Reads one input packet.
pub fn decode_input(packet: &InboundInput) -> (r: Decoded)
    ensures
        r == decode_spec(packet.session_id, packet.timestamp_ms, packet.bytes@),
{
    let b = &packet.bytes;
    let n = b.len();
    if n == 0 {
        return Decoded::Corrupt;
    }
    let kind = b[0];
    let action = if kind == KIND_POINTER_MOVE {
        if n != 5 {
            return Decoded::Corrupt;
        }
        InputAction::PointerMove { x: read_be16(b, 1), y: read_be16(b, 3) }
    } else if kind == KIND_POINTER_CLICK {
        if n != 6 {
            return Decoded::Corrupt;
        }
        InputAction::PointerClick { x: read_be16(b, 1), y: read_be16(b, 3), button: b[5] }
    } else if kind == KIND_KEY {
        if n != 4 || b[3] > 1 {
            return Decoded::Corrupt;
        }
        InputAction::Key { code: read_be16(b, 1), pressed: b[3] == 1 }
    } else {
        return Decoded::Unknown;
    };
    Decoded::Event(
        InputEvent { session_id: packet.session_id, timestamp_ms: packet.timestamp_ms, action },
    )
}

/// The events of session `session_id` among the received packets, in the
/// order they arrived; packets of other sessions, corrupt packets and
/// unknown kinds are passed over.
pub fn events_for_session(packets: &Vec<InboundInput>, session_id: u64) -> (r: Vec<InputEvent>)
    ensures
        r@ == delivered(packets@, session_id),
{
    let mut out: Vec<InputEvent> = Vec::new();
    let mut i: usize = 0;
    while i < packets.len()
        invariant
            i <= packets@.len(),
            out@ == delivered(packets@.subrange(0, i as int), session_id),
        decreases packets@.len() - i,
    {
        let p = &packets[i];
        assert(packets@.subrange(0, i + 1).drop_last() =~= packets@.subrange(0, i as int));
        assert(packets@.subrange(0, i + 1).last() == packets@[i as int]);
        if p.session_id == session_id {
            match decode_input(p) {
                Decoded::Event(e) => {
                    out.push(e);
                },
                _ => {},
            }
        }
        i = i + 1;
    }
    assert(packets@.subrange(0, packets@.len() as int) =~= packets@);
    out
}

/// Sessions stay apart: every event delivered for a session came from that
/// session, and no more events are delivered than packets were received.
pub proof fn lemma_delivered_belong_to_session(ps: Seq<InboundInput>, sid: u64)
    ensures
        forall|i: int|
            0 <= i < delivered(ps, sid).len() ==> #[trigger] delivered(ps, sid)[i].session_id
                == sid,
        delivered(ps, sid).len() <= ps.len(),
    decreases ps.len(),
{
    if ps.len() > 0 {
        lemma_delivered_belong_to_session(ps.drop_last(), sid);
        let before = delivered(ps.drop_last(), sid);
        assert forall|i: int| 0 <= i < delivered(ps, sid).len() implies
            #[trigger] delivered(ps, sid)[i].session_id == sid by {
            if i < before.len() {
                assert(delivered(ps, sid)[i] == before[i]);
            }
        }
    }
}

} // verus!
