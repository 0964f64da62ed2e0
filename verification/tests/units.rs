use steady_state::actor_units::{Work, MCPU};
use steady_state::channel_units::{Filled, Rate};

#[test]
fn test_work_new() {
    let work = Work::from_hundredths((50.0f32 * 100.0) as u16).expect("internal error");
    assert_eq!(work.rational().0, 5000);
}

#[test]
fn test_mcpu_new() {
    let mcpu = MCPU::new(512).expect("internal error");
    assert_eq!(mcpu.mcpu(), 512);
}

#[test]
fn test_work_rational() {
    let work = Work::from_hundredths((25.0f32 * 100.0) as u16).expect("internal error");
    assert_eq!(work.rational(), (2500, 10_000));
}

#[test]
fn test_mcpu_rational() {
    let mcpu = MCPU::new(256).expect("internal error");
    assert_eq!(mcpu.mcpu(), 256);
}

#[test]
fn work_refuses_more_than_everything() {
    assert!(Work::from_hundredths(10_000).is_some());
    assert!(Work::from_hundredths(10_001).is_none());
    assert_eq!(Work::from_hundredths(0).unwrap().rational(), (0, 10_000));
}

#[test]
fn work_presets_are_tenths() {
    assert_eq!(Work::p10().rational(), (1000, 10_000));
    assert_eq!(Work::p50().rational(), (5000, 10_000));
    assert_eq!(Work::p100().rational(), (10_000, 10_000));
}

#[test]
fn mcpu_accepts_one_to_1024() {
    assert!(MCPU::new(0).is_none());
    assert!(MCPU::new(1025).is_none());
    assert_eq!(MCPU::new(1).unwrap().mcpu(), 1);
    assert_eq!(MCPU::new(1024).unwrap().mcpu(), 1024);
    assert_eq!(MCPU::m16().mcpu(), 16);
    assert_eq!(MCPU::m768().mcpu(), 768);
    assert_eq!(MCPU::m1024().mcpu(), 1024);
}

#[test]
fn rates_are_units_per_millis() {
    assert_eq!(Rate::per_millis(7).rational_ms(), (7, 1));
    assert_eq!(Rate::per_seconds(7).rational_ms(), (7, 1000));
    assert_eq!(Rate::per_minutes(7).rational_ms(), (7, 60_000));
    assert_eq!(Rate::per_hours(7).rational_ms(), (7, 3_600_000));
    assert_eq!(Rate::per_days(7).rational_ms(), (7, 86_400_000));
}

#[test]
fn filled_presets() {
    assert_eq!(Filled::exact(12), Filled::Exact(12));
    assert_eq!(Filled::p10(), Filled::Percentage(10, 100));
    assert_eq!(Filled::p100(), Filled::Percentage(100, 100));
}
