use second_screen_capture::encoder::{encode_all, EncodeError, Encoder};
use second_screen_capture::ring::{Frame, PixelFormat};

fn frame(ts: u64, format: PixelFormat) -> Frame {
    Frame { timestamp_us: ts, width: 2, height: 2, format, pixels: vec![1, 2, 3, ts as u8] }
}

#[test]
fn sequence_numbers_are_gap_free_with_periodic_keyframes() {
    let mut enc = Encoder::new(PixelFormat::Nv12, 2, 2, 3);
    let mut seqs = Vec::new();
    let mut keys = Vec::new();
    for ts in 0..7u64 {
        let e = enc.encode(frame(ts * 10, PixelFormat::Nv12), 1_000_000).unwrap();
        assert_eq!(e.origin_timestamp_us, ts * 10);
        assert_eq!(e.payload, vec![1, 2, 3, (ts * 10) as u8]);
        assert_eq!(e.bitrate, 1_000_000);
        seqs.push(e.sequence);
        keys.push(e.keyframe);
    }
    assert_eq!(seqs, vec![0, 1, 2, 3, 4, 5, 6]);
    assert_eq!(keys, vec![true, false, false, true, false, false, true]);
    assert_eq!(enc.next_sequence(), 7);
}

#[test]
fn unsupported_frame_uses_no_sequence_number() {
    let mut enc = Encoder::new(PixelFormat::Nv12, 2, 2, 30);
    assert_eq!(enc.encode(frame(0, PixelFormat::Nv12), 500).unwrap().sequence, 0);
    assert!(matches!(enc.encode(frame(1, PixelFormat::Rgba8), 500), Err(EncodeError::Unsupported)));
    let mut wrong_size = frame(2, PixelFormat::Nv12);
    wrong_size.width = 3;
    assert!(matches!(enc.encode(wrong_size, 500), Err(EncodeError::Unsupported)));
    assert_eq!(enc.encode(frame(3, PixelFormat::Nv12), 500).unwrap().sequence, 1);
}

#[test]
fn encode_all_stops_at_first_unsupported_frame() {
    let mut enc = Encoder::new(PixelFormat::Bgra8, 2, 2, 2);
    let frames = vec![
        frame(1, PixelFormat::Bgra8),
        frame(2, PixelFormat::Bgra8),
        frame(3, PixelFormat::Nv12),
        frame(4, PixelFormat::Bgra8),
    ];
    let out = encode_all(&mut enc, frames, 800_000);
    let seqs: Vec<u64> = out.iter().map(|e| e.sequence).collect();
    assert_eq!(seqs, vec![0, 1]);
    assert_eq!(enc.next_sequence(), 2);
}
