use second_screen_capture::ring::{Frame, FrameRing, PixelFormat, Popped, PushError};

fn frame(ts: u64) -> Frame {
    Frame { timestamp_us: ts, width: 4, height: 2, format: PixelFormat::Bgra8, pixels: vec![ts as u8; 32] }
}

fn timestamps(ring: &FrameRing) -> Vec<u64> {
    (0..ring.len()).map(|i| ring.timestamp_at(i)).collect()
}

#[test]
fn encoder_stall_keeps_most_recent_frames() {
    // 30 fps for 300 ms while the encoder takes nothing: ten capture ticks.
    let mut ring = FrameRing::new(5);
    for tick in 0..10u64 {
        assert_eq!(ring.push(frame(tick * 33_333)), Ok(()));
    }
    assert_eq!(ring.len(), 4);
    assert_eq!(timestamps(&ring), vec![6 * 33_333, 7 * 33_333, 8 * 33_333, 9 * 33_333]);
    assert_eq!(ring.dropped(), 6);
}

#[test]
fn ring_never_exceeds_capacity_and_keeps_order() {
    let mut ring = FrameRing::new(3);
    for ts in 1..=20u64 {
        ring.push(frame(ts * 10)).unwrap();
        assert!(ring.len() < ring.capacity());
        let t = timestamps(&ring);
        assert!(t.windows(2).all(|w| w[0] < w[1]));
        assert_eq!(*t.last().unwrap(), ts * 10);
    }
}

#[test]
fn ring_refuses_out_of_order_frames() {
    let mut ring = FrameRing::new(4);
    ring.push(frame(100)).unwrap();
    assert_eq!(ring.push(frame(100)), Err(PushError::OutOfOrder));
    assert_eq!(ring.push(frame(50)), Err(PushError::OutOfOrder));
    assert_eq!(ring.len(), 1);
    // Order is kept against frames already handed out, too.
    assert!(matches!(ring.pop(), Popped::Frame(f) if f.timestamp_us == 100));
    assert_eq!(ring.push(frame(90)), Err(PushError::OutOfOrder));
}

#[test]
fn ring_pops_oldest_first_then_reports_empty() {
    let mut ring = FrameRing::new(4);
    ring.push(frame(1)).unwrap();
    ring.push(frame(2)).unwrap();
    assert!(matches!(ring.pop(), Popped::Frame(f) if f.timestamp_us == 1));
    assert!(matches!(ring.pop(), Popped::Frame(f) if f.timestamp_us == 2));
    assert!(matches!(ring.pop(), Popped::Empty));
}

#[test]
fn closed_ring_drains_then_reports_closed() {
    let mut ring = FrameRing::new(4);
    ring.push(frame(1)).unwrap();
    ring.close();
    assert!(ring.is_closed());
    assert_eq!(ring.push(frame(2)), Err(PushError::Closed));
    assert!(matches!(ring.pop(), Popped::Frame(f) if f.timestamp_us == 1));
    assert!(matches!(ring.pop(), Popped::Closed));
}

#[test]
fn drain_hands_out_everything_in_order() {
    let mut ring = FrameRing::new(8);
    for ts in [5u64, 6, 9] {
        ring.push(frame(ts)).unwrap();
    }
    let out: Vec<u64> = ring.drain().iter().map(|f| f.timestamp_us).collect();
    assert_eq!(out, vec![5, 6, 9]);
    assert!(ring.is_empty());
}
