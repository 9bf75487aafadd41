use clawcombat::path::GridPoint;
use clawcombat::pings::{expiry, TacticalPings, DEATH_MEMORY_FRAMES, FIRE_MEMORY_FRAMES};
use clawcombat::tally::Side;

fn cell(x: i32, y: i32) -> GridPoint {
    GridPoint { x, y }
}

#[test]
fn remembers_and_replaces() {
    let mut m = TacticalPings::new();
    m.record(cell(1, 2), expiry(0, FIRE_MEMORY_FRAMES), Side::A);
    m.record(cell(3, 4), expiry(10, DEATH_MEMORY_FRAMES), Side::B);
    m.record(cell(1, 2), 5000, Side::B);
    assert_eq!(m.len(), 2);
    let p = m.lookup(cell(1, 2)).unwrap();
    assert_eq!(p.expire_frame, 5000);
    assert_eq!(p.side, Side::B);
    assert_eq!(m.lookup(cell(3, 4)).unwrap().expire_frame, 3610);
    assert!(m.lookup(cell(0, 0)).is_none());
}

#[test]
fn forgets_expired() {
    let mut m = TacticalPings::new();
    m.record(cell(0, 0), 100, Side::A);
    m.record(cell(0, 1), 101, Side::A);
    m.forget_expired(100);
    assert!(m.lookup(cell(0, 0)).is_none());
    assert!(m.lookup(cell(0, 1)).is_some());
    m.forget_expired(101);
    assert_eq!(m.len(), 0);
}

#[test]
fn forgets_marked_and_lists_hostile() {
    let mut m = TacticalPings::new();
    m.record(cell(0, 0), 100, Side::A);
    m.record(cell(5, 5), 100, Side::B);
    m.record(cell(9, 9), 100, Side::B);
    assert_eq!(m.hostile_cells(Side::A), vec![cell(5, 5), cell(9, 9)]);
    assert_eq!(m.hostile_cells(Side::B), vec![cell(0, 0)]);
    m.forget_marked(&vec![false, true, false]);
    assert_eq!(m.len(), 2);
    assert!(m.lookup(cell(5, 5)).is_none());
    assert_eq!(m.get(1).cell, cell(9, 9));
}
