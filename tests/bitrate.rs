use second_screen_capture::bitrate::{BitrateBounds, FeedbackReport};

fn report(loss: u32) -> FeedbackReport {
    FeedbackReport { loss, rtt_ms: 40, receiver_fill: 2000 }
}

#[test]
fn high_loss_cuts_bitrate_by_thirty_percent() {
    let bounds = BitrateBounds::new(300_000, 8_000_000).unwrap();
    let next = bounds.next_bitrate(2_000_000, &report(1500));
    assert!(next <= 1_400_000);
    assert!(next >= bounds.min_bps());
    assert_eq!(next, 1_400_000);
}

#[test]
fn high_loss_cut_stops_at_minimum() {
    let bounds = BitrateBounds::new(1_000_000, 8_000_000).unwrap();
    assert_eq!(bounds.next_bitrate(1_200_000, &report(5000)), 1_000_000);
    assert_eq!(bounds.next_bitrate(1_000_000, &report(5000)), 1_000_000);
}

#[test]
fn low_loss_raises_bitrate_by_one_step_up_to_maximum() {
    let bounds = BitrateBounds::new(300_000, 2_020_000).unwrap();
    assert_eq!(bounds.next_bitrate(1_000_000, &report(0)), 1_050_000);
    assert_eq!(bounds.next_bitrate(2_000_000, &report(199)), 2_020_000);
    assert_eq!(bounds.next_bitrate(2_020_000, &report(0)), 2_020_000);
}

#[test]
fn moderate_loss_holds_bitrate() {
    let bounds = BitrateBounds::new(300_000, 8_000_000).unwrap();
    assert_eq!(bounds.next_bitrate(1_000_000, &report(200)), 1_000_000);
    assert_eq!(bounds.next_bitrate(1_000_000, &report(1000)), 1_000_000);
    // A target outside narrowed bounds is brought back into them.
    assert_eq!(bounds.next_bitrate(9_000_000, &report(500)), 8_000_000);
}

#[test]
fn bounds_only_narrow() {
    assert!(BitrateBounds::new(5, 4).is_none());
    let mut b = BitrateBounds::new(100, 1000).unwrap();
    assert!(!b.narrow(50, 500));
    assert!(!b.narrow(600, 500));
    assert_eq!((b.min_bps(), b.max_bps()), (100, 1000));
    assert!(b.narrow(200, 500));
    assert_eq!((b.min_bps(), b.max_bps()), (200, 500));
}
