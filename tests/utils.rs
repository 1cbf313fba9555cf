use second_screen_capture::utils::{format_bitrate, format_bytes, millis_or_zero, timestamp_ms};

#[test]
fn test_format_bytes() {
    assert_eq!(format_bytes(500), "500 B");
    assert_eq!(format_bytes(1024), "1.00 KB");
    assert_eq!(format_bytes(1024 * 1024), "1.00 MB");
    assert_eq!(format_bytes(1024 * 1024 * 1024), "1.00 GB");
}

#[test]
fn test_format_bitrate() {
    assert_eq!(format_bitrate(500), "500 bps");
    assert_eq!(format_bitrate(5_000), "5.00 Kbps");
    assert_eq!(format_bitrate(10_000_000), "10.00 Mbps");
}

#[test]
fn test_timestamp_ms() {
    let t1 = timestamp_ms();
    let start = std::time::Instant::now();
    while start.elapsed() < std::time::Duration::from_millis(10) {}
    let t2 = timestamp_ms();
    assert!(t2 > t1);
    assert!(t2 - t1 >= 10);
}

#[test]
fn format_bytes_edges() {
    assert_eq!(format_bytes(0), "0 B");
    assert_eq!(format_bytes(1023), "1023 B");
    assert_eq!(format_bytes(1536), "1.50 KB");
    assert_eq!(format_bytes(1_048_575), "1024.00 KB");
    assert_eq!(format_bytes(5 * 1024 * 1024 + 10 * 1024), "5.01 MB");
    assert_eq!(format_bytes(u64::MAX), "17179869184.00 GB");
}

#[test]
fn format_bytes_rounds_halves_to_even() {
    // 1.125 KB and 1.375 KB lie exactly halfway between two hundredths.
    assert_eq!(format_bytes(1152), "1.12 KB");
    assert_eq!(format_bytes(1408), "1.38 KB");
}

#[test]
fn format_bitrate_edges() {
    assert_eq!(format_bitrate(0), "0 bps");
    assert_eq!(format_bitrate(999), "999 bps");
    assert_eq!(format_bitrate(1000), "1.00 Kbps");
    assert_eq!(format_bitrate(1_234_567), "1.23 Mbps");
    assert_eq!(format_bitrate(999_999), "1000.00 Kbps");
    assert_eq!(format_bitrate(u32::MAX), "4294.97 Mbps");
}

#[test]
fn clock_reading_becomes_timestamp() {
    assert_eq!(millis_or_zero(Some(1_700_000_000_123)), 1_700_000_000_123);
    assert_eq!(millis_or_zero(Some(u64::MAX as u128 + 5)), 4);
    assert_eq!(millis_or_zero(None), 0);
}

#[test]
fn format_bitrate_rounds_exact_halves_to_even() {
    assert_eq!(format_bitrate(1015), "1.02 Kbps");
    assert_eq!(format_bitrate(1005), "1.00 Kbps");
    assert_eq!(format_bitrate(1_035_000), "1.04 Mbps");
}

#[test]
fn larger_rates_never_render_smaller() {
    assert_eq!(format_bitrate(1_400_000), "1.40 Mbps");
    assert_eq!(format_bitrate(999_999), "1000.00 Kbps");
    assert_eq!(format_bitrate(1_000_000), "1.00 Mbps");
    assert_eq!(format_bytes(1_048_575), "1024.00 KB");
    assert_eq!(format_bytes(1_048_576), "1.00 MB");
}
