use std::time::Duration;
use steady_state::telemetry_window::internal_compute_refresh_window;

#[test]
fn test_internal_compute_refresh_window_edge_cases() {
    // Test zero frame rate (should return 0,0)
    let (r, w) = internal_compute_refresh_window(
        0,
        Duration::from_secs(1).as_micros(),
        Duration::from_secs(10).as_micros(),
    );
    assert_eq!((r, w), (0, 0));

    // Test very small durations
    let (_r, _w) = internal_compute_refresh_window(
        100,
        Duration::from_millis(1).as_micros(),
        Duration::from_millis(1).as_micros(),
    );
}

#[test]
fn test_actor_refresh_window_matches_shared_frame_math() {
    let refresh = Duration::from_secs(1);
    let window = Duration::from_secs(10);
    let actor_bits = internal_compute_refresh_window(100, refresh.as_micros(), window.as_micros());
    assert_eq!(actor_bits, (4, 3));
}

#[test]
fn refresh_window_small_spans_need_no_bits() {
    assert_eq!(internal_compute_refresh_window(100, 1_000, 1_000), (0, 0));
}

#[test]
fn refresh_window_exact_powers() {
    // 40 ms frames, 320 ms refresh: 8 frames, 3 bits; 1280 ms window: 4 buckets, 2 bits.
    assert_eq!(internal_compute_refresh_window(40, 320_000, 1_280_000), (3, 2));
    // One more microsecond needs the next power of two.
    assert_eq!(internal_compute_refresh_window(40, 320_000, 1_280_001), (3, 3));
}
