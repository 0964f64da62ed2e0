use steady_state::actor_stats::{ActorIdentity, ActorMetaData, ActorStatsComputer};
use steady_state::actor_units::{Work, MCPU};
use steady_state::channel_stats::{ActorName, AlertColor, AlertLevels, LineColor, Trigger};

fn meta(mcpu_percentiles: bool, work_percentiles: bool) -> ActorMetaData {
    ActorMetaData {
        ident: ActorIdentity { id: 1, label: ActorName { name: "test".to_string(), suffix: None } },
        avg_mcpu: true,
        avg_work: true,
        show_thread_info: false,
        mcpu_percentiles,
        work_percentiles,
        trigger_mcpu: vec![],
        trigger_work: vec![],
        usage_review: false,
        refresh_rate_in_bits: 2,
        window_bucket_in_bits: 2,
        show_actor_ids: false,
    }
}

fn fill_window(stats: &mut ActorStatsComputer, mcpu: u16, work: u16) {
    let (r, w) = stats.refresh_window_bits();
    let total_frames = 1 << (1 + w + r);
    for _ in 0..total_frames {
        stats.accumulate_data_frame(mcpu, work);
    }
}

#[test]
fn test_init_histogram_creation_errors() {
    let mut actor_stats = ActorStatsComputer::new();
    actor_stats.init(meta(true, true), 1000, "min".to_string());
    assert!(actor_stats.build_histograms().0);
    assert!(actor_stats.build_histograms().1);
}

#[test]
fn test_accumulate_data_frame_histogram_errors() {
    let mut actor_stats = ActorStatsComputer::new();
    actor_stats.init(meta(true, true), 1000, "min".to_string());
    actor_stats.accumulate_data_frame(1024, 100);
    assert!(actor_stats.history_lens().0 > 0);
    assert!(actor_stats.history_lens().1 > 0);
}

#[test]
fn actor_prometheus_labels() {
    let mut stats = ActorStatsComputer::new();
    let mut m = meta(false, false);
    m.ident.label.suffix = Some(3);
    stats.init(m, 1000, "min".to_string());
    assert_eq!(stats.prometheus_labels(), "actor_name=\"test\", actor_suffix=\"3\"");
    let mut plain = ActorStatsComputer::new();
    plain.init(meta(false, false), 1000, "min".to_string());
    assert_eq!(plain.prometheus_labels(), "actor_name=\"test\"");
}

#[test]
fn higher_constant_load_gives_higher_window_sums() {
    let mut low = ActorStatsComputer::new();
    low.init(meta(false, false), 1000, "min".to_string());
    fill_window(&mut low, 200, 20);
    let mut high = ActorStatsComputer::new();
    high.init(meta(false, false), 1000, "min".to_string());
    fill_window(&mut high, 700, 70);
    // A window of sixteen frames of constant samples sums to sixteen times the sample.
    assert_eq!(low.current_runners(), (Some(200 * 16), Some(20 * 16)));
    assert_eq!(high.current_runners(), (Some(700 * 16), Some(70 * 16)));
}

#[test]
fn mcpu_and_work_rules() {
    let mut stats = ActorStatsComputer::new();
    stats.init(meta(false, false), 1000, "min".to_string());
    fill_window(&mut stats, 500, 45);
    assert!(stats.triggered_mcpu(&Trigger::AvgAbove(MCPU::m256())));
    assert!(!stats.triggered_mcpu(&Trigger::AvgAbove(MCPU::m512())));
    assert!(stats.triggered_mcpu(&Trigger::AvgBelow(MCPU::m512())));
    assert!(stats.triggered_work(&Trigger::AvgAbove(Work::p40())));
    assert!(stats.triggered_work(&Trigger::AvgBelow(Work::p50())));
    // Exactly at the bound is neither above nor below.
    let exact = MCPU::new(500).unwrap();
    assert!(!stats.triggered_mcpu(&Trigger::AvgAbove(exact)));
    assert!(!stats.triggered_mcpu(&Trigger::AvgBelow(exact)));
}

#[test]
fn actor_alert_color_priority() {
    let mut stats = ActorStatsComputer::new();
    stats.init(meta(false, false), 1000, "min".to_string());
    stats.add_mcpu_trigger(Trigger::AvgAbove(MCPU::m256()), AlertColor::Yellow);
    stats.add_mcpu_trigger(Trigger::AvgAbove(MCPU::m512()), AlertColor::Orange);
    stats.add_work_trigger(Trigger::AvgAbove(Work::p70()), AlertColor::Red);
    fill_window(&mut stats, 800, 80);
    assert!(stats.trigger_alert_level(&AlertColor::Red));
    let mut label = String::new();
    let color = stats.compute(&mut label, Some((800, 80)), 0, false, None, None);
    assert_eq!(color, LineColor::Red);
    assert!(stats.trigger_alert_level(&AlertColor::Yellow));
    assert!(stats.trigger_alert_level(&AlertColor::Orange));
}

#[test]
fn actor_without_rules_is_grey_and_green_with_quiet_rules() {
    let mut stats = ActorStatsComputer::new();
    stats.init(meta(false, false), 1000, "min".to_string());
    fill_window(&mut stats, 300, 30);
    let mut label = String::new();
    assert_eq!(stats.compute(&mut label, Some((300, 30)), 0, false, None, None), LineColor::Grey);
    stats.add_mcpu_trigger(Trigger::AvgAbove(MCPU::m1024()), AlertColor::Red);
    assert_eq!(stats.compute(&mut label, Some((300, 30)), 0, false, None, None), LineColor::Green);
    let orange = AlertLevels { yellow: false, orange: true, red: false };
    assert_eq!(stats.compute(&mut label, None, 0, false, None, Some(orange)), LineColor::Orange);
}

#[test]
fn actor_dot_label() {
    let mut stats = ActorStatsComputer::new();
    let mut m = meta(false, false);
    m.ident.label.suffix = Some(2);
    m.show_actor_ids = true;
    stats.init(m, 1000, "4 secs".to_string());
    let mut label = String::from("old");
    stats.compute(&mut label, None, 3, true, Some("ThreadId(7)".to_string()), None);
    assert_eq!(label, "test2[1]\nThreadId(7)\nWindow 4 secs\nrestarts: 3\nstopped\n");
}
