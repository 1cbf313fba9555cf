use second_screen_capture::encoder::EncodedFrame;
use second_screen_capture::ring::{Frame, FrameRing, PixelFormat, Popped};
use second_screen_capture::shutdown::{close_and_drain, next_shutdown_action, ShutdownAction};
use second_screen_capture::transport::packetize;

#[test]
fn shutdown_drains_within_grace_period() {
    assert_eq!(next_shutdown_action(0, 500, 3), ShutdownAction::KeepDraining);
    assert_eq!(next_shutdown_action(499, 500, 1), ShutdownAction::KeepDraining);
    assert_eq!(next_shutdown_action(500, 500, 1), ShutdownAction::ForceClose);
    assert_eq!(next_shutdown_action(10, 500, 0), ShutdownAction::Done);
    assert_eq!(next_shutdown_action(900, 500, 0), ShutdownAction::Done);
}

#[test]
fn shutdown_mid_stream_leaves_ring_empty() {
    let mut ring = FrameRing::new(6);
    for ts in 1..=4u64 {
        ring.push(Frame { timestamp_us: ts, width: 1, height: 1, format: PixelFormat::Rgba8, pixels: vec![0; 4] })
            .unwrap();
    }
    let released = close_and_drain(&mut ring);
    assert_eq!(released.len(), 4);
    assert!(ring.is_empty());
    assert!(ring.is_closed());
    assert!(matches!(ring.pop(), Popped::Closed));
}

fn encoded(len: usize) -> EncodedFrame {
    EncodedFrame {
        sequence: 41,
        keyframe: true,
        payload: (0..len).map(|i| i as u8).collect(),
        origin_timestamp_us: 5,
        bitrate: 1,
    }
}

#[test]
fn packetize_cuts_payload_into_tagged_fragments() {
    let frame = encoded(2500);
    let packets = packetize(3, &frame, 1000);
    assert_eq!(packets.len(), 3);
    let sizes: Vec<usize> = packets.iter().map(|p| p.payload.len()).collect();
    assert_eq!(sizes, vec![1000, 1000, 500]);
    for (i, p) in packets.iter().enumerate() {
        assert_eq!((p.session_id, p.sequence, p.keyframe), (3, 41, true));
        assert_eq!((p.fragment_index, p.fragment_count), (i, 3));
    }
    let joined: Vec<u8> = packets.iter().flat_map(|p| p.payload.iter().copied()).collect();
    assert_eq!(joined, frame.payload);
}

#[test]
fn packetize_exact_multiple_and_empty_payload() {
    assert_eq!(packetize(1, &encoded(2000), 1000).len(), 2);
    let empty = packetize(1, &encoded(0), 1000);
    assert_eq!(empty.len(), 1);
    assert!(empty[0].payload.is_empty());
    assert_eq!(empty[0].fragment_count, 1);
}
