use std::cmp::Ordering;
use std::time::Duration;
use steady_state::channel_stats::{
    ActorName, AlertColor, AlertLevels, ChannelMetaData, ChannelStatsComputer, LineColor, Trigger,
};
use steady_state::channel_units::{Filled, Rate};
use steady_state::channel_stats_labels::{push_extreme_labels, ComputeLabelsConfig, ComputeLabelsLabels};

fn mock_meta() -> ChannelMetaData {
    ChannelMetaData {
        capacity: 100,
        show_total: true,
        partner: None,
        bundle_index: None,
        girth: 1,
        type_byte_count: 8,
        show_memory: false,
        labels: vec![],
        display_labels: false,
        show_type: Some("u64".to_string()),
        refresh_rate_in_bits: 1,
        window_bucket_in_bits: 1,
        show_avg_filled: false,
        show_avg_rate: false,
        show_avg_latency: false,
        min_filled: false,
        max_filled: false,
        min_rate: false,
        max_rate: false,
        min_latency: false,
        max_latency: false,
        filled_percentiles: false,
        rate_percentiles: false,
        latency_percentiles: false,
        trigger_rate: vec![],
        trigger_filled: vec![],
        trigger_latency: vec![],
    }
}

fn actor(name: &str, suffix: Option<usize>) -> ActorName {
    ActorName { name: name.to_string(), suffix }
}

const NO_ALERTS: AlertLevels = AlertLevels { yellow: false, orange: false, red: false };

#[test]
fn channel_stats_test_avg_filled_percentage_none() {
    let mut computer = ChannelStatsComputer::new();
    computer.set_capacity(100);
    assert_eq!(computer.avg_filled_percentage(&50, &100), Ordering::Equal);
}

#[test]
fn channel_stats_tests_test_avg_filled_percentage_none() {
    let mut computer = ChannelStatsComputer::new();
    computer.set_capacity(100);
    assert_eq!(computer.avg_filled_percentage(&50, &100), Ordering::Equal);
}

#[test]
fn channel_stats_test_avg_latency_none() {
    let computer = ChannelStatsComputer::new();
    assert_eq!(computer.avg_latency(Duration::from_millis(100).as_micros()), Ordering::Equal);
}

#[test]
fn channel_stats_tests_test_avg_latency_none() {
    let computer = ChannelStatsComputer::new();
    assert_eq!(computer.avg_latency(Duration::from_millis(100).as_micros()), Ordering::Equal);
}

#[test]
fn test_init_and_label_building() {
    let mut computer = ChannelStatsComputer::new();
    let meta = mock_meta();
    let from = actor("src", Some(1));
    let to = actor("dst", None);

    computer.init(&meta, from, to, 1000);

    assert_eq!(computer.capacity(), 100);
    assert!(computer.prometheus_labels().contains("from=\"src1\""));
    assert!(computer.prometheus_labels().contains("to=\"dst\""));
    assert!(computer.prometheus_labels().contains("type=\"u64\""));
}

#[test]
fn test_monotonic_total_and_resets() {
    let mut computer = ChannelStatsComputer::new();
    computer.init(&mock_meta(), actor("a", None), actor("b", None), 1000);

    let mut label = String::new();

    // Normal increment
    computer.compute(&mut label, 100, 50, NO_ALERTS);
    assert_eq!(computer.total_consumed(), 50);

    // Counter reset (take < prev_take)
    computer.compute(&mut label, 120, 10, NO_ALERTS);
    // Should treat 10 as a fresh delta: 50 + 10 = 60
    assert_eq!(computer.total_consumed(), 60);
}

#[test]
fn test_bundle_and_memory_display() {
    let mut computer = ChannelStatsComputer::new();
    let mut meta = mock_meta();
    meta.girth = 4;
    meta.show_memory = true;

    computer.init(&meta, actor("a", None), actor("b", None), 1000);

    let (girth, show_memory, _) = computer.display_settings();
    assert_eq!(girth, 4);
    assert_eq!(computer.memory_footprint(), 800); // 100 * 8 bytes
    assert!(show_memory);
}

#[test]
fn test_alert_color_priority() {
    let mut computer = ChannelStatsComputer::new();
    let mut meta = mock_meta();
    // Add a Red and a Yellow trigger
    meta.trigger_rate.push((Trigger::AvgAbove(Rate::per_seconds(1)), AlertColor::Yellow));
    meta.trigger_filled.push((Trigger::AvgAbove(Filled::p10()), AlertColor::Red));

    computer.init(&meta, actor("a", None), actor("b", None), 1000);

    // Fill window + 1 to trigger rotation
    let (r, w) = computer.refresh_window_bits();
    let c = (1 << (w + r)) + 1;
    for _ in 0..c {
        computer.accumulate_data_frame(50, 100);
    }

    let mut label = String::new();
    let (color, _) = computer.compute(&mut label, 100, 50, NO_ALERTS);

    assert_eq!(color, LineColor::Red); // Red should override Yellow
}

#[test]
fn test_trigger_gauntlet_latency() {
    let mut computer = ChannelStatsComputer::new();
    let mut meta = mock_meta();

    // The average latency rules (bounds in microseconds); rules on the spread
    // and on percentiles are evaluated by the application.
    meta.trigger_latency.push((Trigger::AvgAbove(Duration::from_micros(100).as_micros()), AlertColor::Red));
    meta.trigger_latency.push((Trigger::AvgBelow(Duration::from_micros(10).as_micros()), AlertColor::Red));

    computer.init(&meta, actor("a", None), actor("b", None), 1000);

    // Fill window + 1 to trigger rotation
    let (r, w) = computer.refresh_window_bits();
    let c = (1 << (w + r)) + 1;
    for _ in 0..c {
        computer.accumulate_data_frame(50, 100);
    }

    assert!(computer.triggered_latency(&Trigger::AvgAbove(Duration::from_micros(100).as_micros())));
    assert!(!computer.triggered_latency(&Trigger::AvgBelow(Duration::from_micros(10).as_micros())));
}

#[test]
fn test_trigger_gauntlet_rate() {
    let mut computer = ChannelStatsComputer::new();
    let mut meta = mock_meta();

    meta.trigger_rate.push((Trigger::AvgAbove(Rate::per_seconds(50)), AlertColor::Red));
    meta.trigger_rate.push((Trigger::AvgBelow(Rate::per_seconds(10000)), AlertColor::Red));

    computer.init(&meta, actor("a", None), actor("b", None), 1000);

    // Rate is 100 per message. With 32 samples/frame, that's 3200 per sec.
    let (r, w) = computer.refresh_window_bits();
    let c = (1 << (w + r)) + 1;
    for _ in 0..c {
        computer.accumulate_data_frame(10, 100);
    }

    assert!(computer.triggered_rate(&Trigger::AvgAbove(Rate::per_seconds(50))));
    assert!(computer.triggered_rate(&Trigger::AvgBelow(Rate::per_seconds(10000))));
}

#[test]
fn test_trigger_gauntlet_filled() {
    let mut computer = ChannelStatsComputer::new();
    let mut meta = mock_meta();

    meta.trigger_filled.push((Trigger::AvgAbove(Filled::Percentage(50, 100)), AlertColor::Red));
    meta.trigger_filled.push((Trigger::AvgBelow(Filled::Exact(80)), AlertColor::Red));

    computer.init(&meta, actor("a", None), actor("b", None), 1000);

    // 60 items in 100 capacity -> 60% full
    let (r, w) = computer.refresh_window_bits();
    let c = (1 << (w + r)) + 1;
    for _ in 0..c {
        computer.accumulate_data_frame(60, 10);
    }

    assert!(computer.triggered_filled(&Trigger::AvgAbove(Filled::Percentage(50, 100))));
    assert!(computer.triggered_filled(&Trigger::AvgBelow(Filled::Exact(80))));
}

#[test]
fn channel_stats_test_zero_capacity_safety() {
    let mut computer = ChannelStatsComputer::new();
    // Capacity 0 is invalid but we test the safety return
    computer.set_capacity(0);
    let mut label = String::new();
    let (color, _) = computer.compute(&mut label, 0, 0, NO_ALERTS);
    assert_eq!(color, LineColor::Grey);
}

#[test]
fn channel_stats_tests_test_zero_capacity_safety() {
    let mut computer = ChannelStatsComputer::new();
    computer.set_capacity(0);
    let mut label = String::new();
    let (color, _) = computer.compute(&mut label, 0, 0, NO_ALERTS);
    assert_eq!(color, LineColor::Grey);
}

#[test]
fn channel_stats_test_histogram_creation_failure_handling() {
    let mut computer = ChannelStatsComputer::new();
    let mut meta = mock_meta();
    // Force histogram creation
    meta.filled_percentiles = true;
    computer.init(&meta, actor("a", None), actor("b", None), 1000);
    assert!(computer.build_histograms().0);
}

#[test]
fn channel_stats_tests_test_histogram_creation_failure_handling() {
    let mut computer = ChannelStatsComputer::new();
    let mut meta = mock_meta();
    meta.filled_percentiles = true;
    computer.init(&meta, actor("a", None), actor("b", None), 1000);
    assert!(computer.build_histograms().0);
}

#[test]
fn prometheus_labels_exact() {
    let mut computer = ChannelStatsComputer::new();
    let mut meta = mock_meta();
    meta.labels = vec!["hot".to_string(), "io".to_string()];
    computer.init(&meta, actor("src", Some(12)), actor("dst", None), 1000);
    assert_eq!(
        computer.prometheus_labels(),
        "hot=\"T\", io=\"T\", type=\"u64\", from=\"src12\", to=\"dst\""
    );
}

#[test]
fn window_holds_last_whole_window() {
    // Two frames per bucket, two buckets per window: a bucket leaves the
    // window once four frames were seen, at a bucket boundary.
    let mut computer = ChannelStatsComputer::new();
    computer.init(&mock_meta(), actor("a", None), actor("b", None), 1000);
    for f in 1..=3u64 {
        computer.accumulate_data_frame(f, f);
        assert_eq!(computer.current_runners(), (None, None, None));
    }
    computer.accumulate_data_frame(4, 2);
    // Filled and rate sums are scaled by 1000; latency is filled * 1000 ms * 1000 / rate.
    assert_eq!(
        computer.current_runners(),
        (Some(10_000), Some(8_000), Some(1_000_000 + 1_000_000 + 1_000_000 + 2_000_000))
    );
    computer.accumulate_data_frame(9, 9);
    assert_eq!(computer.current_runners().0, Some(10_000));
    computer.accumulate_data_frame(7, 7);
    // The window now holds frames 3..=6.
    assert_eq!(computer.current_runners().0, Some((3 + 4 + 9 + 7) * 1000));
}

#[test]
fn activity_sets_the_color() {
    let mut computer = ChannelStatsComputer::new();
    computer.init(&mock_meta(), actor("a", None), actor("b", None), 1000);
    let mut label = String::new();
    // 5 of 100 taken: grey; 20: yellow; 50: orange; 90: red.
    assert_eq!(computer.compute(&mut label, 5, 5, NO_ALERTS).0, LineColor::Grey);
    assert_eq!(computer.compute(&mut label, 25, 25, NO_ALERTS).0, LineColor::Yellow);
    assert_eq!(computer.compute(&mut label, 75, 75, NO_ALERTS).0, LineColor::Orange);
    assert_eq!(computer.compute(&mut label, 165, 165, NO_ALERTS).0, LineColor::Red);
    // Exactly 80% is not above it.
    assert_eq!(computer.compute(&mut label, 245, 245, NO_ALERTS).0, LineColor::Orange);
    // An outside alert overrides the activity.
    let yellow = AlertLevels { yellow: true, orange: false, red: false };
    assert_eq!(computer.compute(&mut label, 335, 335, yellow).0, LineColor::Yellow);
    assert_eq!(computer.total_consumed(), 335);
}

#[test]
fn display_label_lines() {
    let mut computer = ChannelStatsComputer::new();
    let mut meta = mock_meta();
    meta.labels = vec!["hot".to_string(), "io".to_string()];
    meta.display_labels = true;
    computer.init(&meta, actor("a", None), actor("b", None), 1000);
    let mut label = String::from("stale");
    let (_, width) = computer.compute(&mut label, 2_000_000, 500_000, NO_ALERTS);
    assert_eq!(label, "u64\nhot io \nTotal: 500K\n");
    assert_eq!(width, "1");
    assert_eq!(LineColor::Orange.name(), "orange");
    assert_eq!(LineColor::Grey.name(), "grey");
}

#[test]
fn filled_histogram_caps_at_capacity() {
    // One frame per bucket and per window: each frame's bucket leaves the
    // window at once, so the current filled bucket holds that frame alone.
    let mut computer = ChannelStatsComputer::new();
    let mut meta = mock_meta();
    meta.capacity = 10;
    meta.refresh_rate_in_bits = 0;
    meta.window_bucket_in_bits = 0;
    meta.max_filled = true;
    meta.max_rate = true;
    computer.init(&meta, actor("a", None), actor("b", None), 1000);
    computer.accumulate_data_frame(25, 7);
    let (filled, rate, _) = computer.current_blocks();
    let filled_hist = filled.as_ref().unwrap().histogram().as_ref().unwrap();
    assert_eq!(filled_hist.inner.len(), 1);
    assert_eq!(filled_hist.inner.count_at(10), 1);
    assert!(filled_hist.inner.equivalent(filled_hist.inner.max(), 10));
    let rate_hist = rate.as_ref().unwrap().histogram().as_ref().unwrap();
    assert_eq!(rate_hist.inner.len(), 1);
    assert!(rate_hist.inner.equivalent(rate_hist.inner.max(), 7));
    // The sum still holds the true count.
    assert_eq!(computer.current_runners().0, Some(25_000));
}

#[test]
fn steady_flow_fills_whole_window() {
    // Two frames per bucket and two buckets per window: four equal frames
    // complete a window whose sums are four times each frame's value.
    let mut computer = ChannelStatsComputer::new();
    computer.init(&mock_meta(), actor("a", None), actor("b", None), 1000);
    for _ in 0..4 {
        computer.accumulate_data_frame(5, 2);
    }
    // latency per frame: 5 items * 1_000_000 us / 2 per frame = 2_500_000 us
    assert_eq!(
        computer.current_runners(),
        (Some(4 * 5_000), Some(4 * 2_000), Some(4 * 2_500_000))
    );
    let (filled, rate, latency) = computer.current_blocks();
    assert_eq!(filled.as_ref().unwrap().sum_of_squares(), 4 * 5_000 * 5_000);
    assert_eq!(rate.as_ref().unwrap().sum_of_squares(), 4 * 2_000 * 2_000);
    assert_eq!(latency.as_ref().unwrap().sum_of_squares(), 4 * 2_500_000 * 2_500_000);
}

#[test]
fn extremes_read_from_the_window_histogram() {
    // One frame per bucket and per window, so each frame's bucket completes
    // at once; the filled histogram of 1..=100 holds that frame's count (1 is
    // exact at this histogram's resolution).
    let mut computer = ChannelStatsComputer::new();
    let mut meta = mock_meta();
    meta.refresh_rate_in_bits = 0;
    meta.window_bucket_in_bits = 0;
    meta.min_filled = true;
    meta.max_filled = true;
    computer.init(&meta, actor("a", None), actor("b", None), 1000);
    computer.accumulate_data_frame(1, 1);
    let config = ComputeLabelsConfig::channel_config(&computer, (1, 1), (1, 1), u64::MAX, false, true, true);
    let labels = ComputeLabelsLabels { label: "filled", unit: "items", _prometheus_labels: "", int_only: false, fixed_digits: 0 };
    let mut metric = String::new();
    let mut label = String::new();
    let block = computer.current_blocks().0.as_ref().unwrap();
    push_extreme_labels(&config, labels, block, &mut metric, &mut label);
    assert_eq!(label, "Min filled: 1 items\nMax filled: 1 items\n");
    assert_eq!(metric, "");
}
