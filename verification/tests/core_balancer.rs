use steady_state::affinity::{core_from_cpu, core_from_processor_number, pin_target_core};
use steady_state::core_balancer::{choose_actor_core, contains_core, CoreBalancer};

#[test]
fn actor_builder_test_core_balancer() {
    let mut cb = CoreBalancer::new(vec![0, 0, 0]);
    assert_eq!(cb.allocate_core(&[]), 0);
    assert_eq!(cb.allocate_core(&[]), 1);
    assert_eq!(cb.allocate_core(&[0]), 2);
    assert_eq!(cb.allocate_core(&[]), 0);
    assert_eq!(*cb.core_usage(), vec![2, 1, 1]);
}

#[test]
fn tests_test_core_balancer() {
    let mut cb = CoreBalancer::new(vec![0, 0, 0]);
    assert_eq!(cb.allocate_core(&[]), 0);
    assert_eq!(cb.allocate_core(&[]), 1);
    assert_eq!(cb.allocate_core(&[0]), 2);
    assert_eq!(cb.allocate_core(&[]), 0);
    assert_eq!(*cb.core_usage(), vec![2, 1, 1]);
}

#[test]
fn affinity_test_core_balancer() {
    let mut cb = CoreBalancer::new(vec![0, 0, 0]);
    assert_eq!(cb.allocate_core(&[]), 0);
    assert_eq!(cb.allocate_core(&[]), 1);
    assert_eq!(cb.allocate_core(&[0]), 2);
    assert_eq!(cb.allocate_core(&[]), 0);
    assert_eq!(*cb.core_usage(), vec![2, 1, 1]);
}

#[test]
fn balancer_spreads_round_robin_around_exclusions() {
    let mut cb = CoreBalancer::new(vec![0, 0, 0, 0]);
    let excluded = [1usize];
    let picks: Vec<usize> = (0..6).map(|_| cb.allocate_core(&excluded)).collect();
    assert_eq!(picks, vec![0, 2, 3, 0, 2, 3]);
    assert_eq!(*cb.core_usage(), vec![2, 0, 2, 2]);
}

#[test]
fn balancer_prefers_least_used_then_lowest() {
    let mut cb = CoreBalancer::new(vec![3, 1, 1, 5]);
    assert_eq!(cb.allocate_core(&[]), 1);
    assert_eq!(cb.allocate_core(&[]), 2);
    assert_eq!(cb.allocate_core(&[2]), 1);
}

#[test]
fn actor_core_without_balancer() {
    // Explicit core wins over the default when not excluded.
    assert_eq!(choose_actor_core(Some(5), 2, &[], None), 5);
    assert_eq!(choose_actor_core(None, 2, &[], None), 2);
    assert_eq!(choose_actor_core(None, 2, &[0, 1], None), 2);
    // An excluded choice falls back to the first core below the exclusion count that is free.
    assert_eq!(choose_actor_core(None, 0, &[0, 2], None), 1);
    // With no free core there, the choice stands.
    assert_eq!(choose_actor_core(None, 1, &[0, 1], None), 1);
}

#[test]
fn actor_core_with_balancer() {
    let cb = CoreBalancer::new(vec![4, 2, 7]);
    assert_eq!(choose_actor_core(Some(0), 0, &[], Some(cb)), 1);
    let cb = CoreBalancer::new(vec![4, 2, 7]);
    assert_eq!(choose_actor_core(None, 0, &[1], Some(cb)), 0);
}

#[test]
fn core_lookup() {
    assert!(contains_core(&[3, 4], 4));
    assert!(!contains_core(&[3, 4], 5));
    assert!(!contains_core(&[], 0));
}

#[test]
fn current_core_reports() {
    assert_eq!(core_from_cpu(3), Some(3));
    assert_eq!(core_from_cpu(0), Some(0));
    assert_eq!(core_from_cpu(-1), None);
    assert_eq!(core_from_processor_number(2), Some(2));
    assert_eq!(core_from_processor_number(0xFFFF_FFFF), None);
}

#[test]
fn pinning_wraps_around_cores() {
    assert_eq!(pin_target_core(5, 4), 1);
    assert_eq!(pin_target_core(3, 4), 3);
    assert_eq!(pin_target_core(8, 4), 0);
}

use steady_state::core_balancer::CorePlacement;

#[test]
fn actor_builder_test_actor_builder_core_configs() {
    let builder = CorePlacement::new();

    let b2 = builder.with_explicit_core(5);
    assert_eq!(b2.explicit_core, Some(4));

    let b3 = builder.with_core_exclusion(vec![0, 1]);
    assert_eq!(b3.excluded_cores, vec![0, 1]);

    let cb = CoreBalancer::new(vec![0]);
    let b4 = builder.with_core_balancing(cb);
    assert!(b4.core_balancer.is_some());
}

#[test]
fn tests_test_actor_builder_core_configs() {
    let builder = CorePlacement::new();

    let b2 = builder.with_explicit_core(5);
    assert_eq!(b2.explicit_core, Some(4));

    let b3 = builder.with_core_exclusion(vec![0, 1]);
    assert_eq!(b3.excluded_cores, vec![0, 1]);

    let cb = CoreBalancer::new(vec![0]);
    let b4 = builder.with_core_balancing(cb);
    assert!(b4.core_balancer.is_some());
}

#[test]
fn placement_chooses_core() {
    let p = CorePlacement::new().with_explicit_core(3).with_core_exclusion(vec![2]);
    assert_eq!(p.choose_core(7), 0);
    let p = CorePlacement::new().with_explicit_core(2);
    assert_eq!(p.choose_core(7), 1);
    assert_eq!(CorePlacement::new().choose_core(7), 7);
    let p = CorePlacement::new().with_core_balancing(CoreBalancer::new(vec![5, 1, 3]));
    assert_eq!(p.choose_core(0), 1);
    // The placement keeps its own balancer; choosing does not count on it.
    assert_eq!(p.choose_core(0), 1);
}
