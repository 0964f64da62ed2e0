use steady_state::troupe::{max_stack_size, member_next_step, MemberAction, MemberOutcome, Troupe};

#[test]
fn actor_builder_test_troupe_ops() {
    let mut troupe: Troupe<u64> = Troupe::new(0);
    troupe.with_name("TestTroupe");
    assert_eq!(troupe.name(), Some(&"TestTroupe".to_string()));

    let mut other: Troupe<u64> = Troupe::new(1);

    troupe.add_actor(40);
    assert_eq!(troupe.len(), 1);

    assert!(troupe.transfer_front_to(&mut other));
    assert_eq!(troupe.len(), 0);
    assert_eq!(other.len(), 1);

    assert!(other.transfer_back_to(&mut troupe));
    assert_eq!(troupe.len(), 1);
}

#[test]
fn tests_test_troupe_ops() {
    let mut troupe: Troupe<u64> = Troupe::new(0);
    troupe.with_name("TestTroupe");
    assert_eq!(troupe.name(), Some(&"TestTroupe".to_string()));

    let mut other: Troupe<u64> = Troupe::new(1);

    troupe.add_actor(40);
    assert_eq!(troupe.len(), 1);

    assert!(troupe.transfer_front_to(&mut other));
    assert_eq!(troupe.len(), 0);
    assert_eq!(other.len(), 1);

    assert!(other.transfer_back_to(&mut troupe));
    assert_eq!(troupe.len(), 1);
    assert_eq!(other.len(), 0);
}

#[test]
fn transfers_keep_order_and_members() {
    let mut a: Troupe<u32> = Troupe::new(7);
    let mut b: Troupe<u32> = Troupe::new(8);
    for m in [1, 2, 3] {
        a.add_actor(m);
    }
    assert!(a.transfer_front_to(&mut b));
    assert!(a.transfer_back_to(&mut b));
    assert_eq!(a.take_members().into_iter().collect::<Vec<_>>(), vec![2]);
    assert_eq!(b.take_members().into_iter().collect::<Vec<_>>(), vec![1, 3]);
    assert_eq!(a.len(), 0);
    assert!(!a.transfer_front_to(&mut b));
    assert!(!a.transfer_back_to(&mut b));
    assert_eq!(a.team_id(), 7);
}

#[test]
fn thread_name_defaults_to_team() {
    let t: Troupe<u8> = Troupe::new(12);
    assert_eq!(t.thread_name(), "Troupe-12");
    let mut named: Troupe<u8> = Troupe::new(12);
    named.with_name("pool");
    assert_eq!(named.thread_name(), "pool");
}

#[test]
fn stack_size_is_the_largest_asked() {
    assert_eq!(max_stack_size(&vec![]), None);
    assert_eq!(max_stack_size(&vec![None, None]), None);
    assert_eq!(max_stack_size(&vec![None, Some(4096), Some(1024), None]), Some(4096));
    assert_eq!(max_stack_size(&vec![Some(1), Some(9), Some(3)]), Some(9));
}

#[test]
fn failed_members_restart_in_next_generation() {
    assert_eq!(member_next_step(MemberOutcome::Finished, 3), MemberAction::Exit);
    assert_eq!(member_next_step(MemberOutcome::Failed, 3), MemberAction::Restart { regeneration: 4 });
    assert_eq!(member_next_step(MemberOutcome::Panicked, 0), MemberAction::Restart { regeneration: 1 });
}
