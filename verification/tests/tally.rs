use clawcombat::tally::{BattleTally, Side};

#[test]
fn new_tally_is_empty() {
    let t = BattleTally::new(42);
    assert_eq!(t.current_phase(), 1);
    assert_eq!(t.start_time(), 42);
    assert_eq!(t.current_order_id(), None);
    assert_eq!(t.phase_counts(), (0, 0, 0, 0));
    assert_eq!(t.total_counts(), (0, 0, 0, 0));
}

#[test]
fn deaths_and_ammo_by_side() {
    let mut t = BattleTally::new(0);
    t.log_death(Side::A);
    t.log_death(Side::A);
    t.log_death(Side::B);
    t.log_death(Side::All);
    t.log_ammo(Side::A, 30);
    t.log_ammo(Side::B, 5);
    t.log_ammo(Side::All, 100);
    assert_eq!(t.phase_counts(), (2, 1, 30, 5));
    assert_eq!(t.total_counts(), (2, 1, 30, 5));
}

#[test]
fn flush_resets_phase_and_keeps_totals() {
    let mut t = BattleTally::new(10);
    t.log_death(Side::B);
    t.log_ammo(Side::A, 7);
    t.flush_phase(500);
    assert_eq!(t.current_phase(), 2);
    assert_eq!(t.start_time(), 500);
    assert_eq!(t.phase_counts(), (0, 0, 0, 0));
    assert_eq!(t.total_counts(), (0, 1, 7, 0));
    t.log_ammo(Side::A, 3);
    assert_eq!(t.phase_counts(), (0, 0, 3, 0));
    assert_eq!(t.total_counts(), (0, 1, 10, 0));
}

#[test]
fn orders_are_numbered_from_one() {
    let mut t = BattleTally::new(0);
    assert_eq!(t.start_new_order(), 1);
    assert_eq!(t.current_order_id(), Some(1));
    assert_eq!(t.start_new_order(), 2);
    t.flush_phase(10);
    assert_eq!(t.start_new_order(), 3);
    assert_eq!(t.current_order_id(), Some(3));
}
