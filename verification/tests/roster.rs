use clawcombat::doctrine::OrderKind;
use clawcombat::roster::{Roster, Squad};
use clawcombat::soldier::{Aftermath, BehaviorKind, Body, Soldier, SoldierEvent};
use clawcombat::tally::Side;

fn soldier(uuid: usize, squad: usize, side: Side) -> Soldier {
    Soldier::new(uuid, squad, side, 0)
}

fn battle() -> Roster {
    // Squad 10: soldiers 0, 1, 2 (side A); squad 20: 3, 4 (side A); squad 30: 5 (side B).
    let soldiers = vec![
        soldier(0, 10, Side::A),
        soldier(1, 10, Side::A),
        soldier(2, 10, Side::A),
        soldier(3, 20, Side::A),
        soldier(4, 20, Side::A),
        soldier(5, 30, Side::B),
    ];
    let mut r = Roster::new(soldiers);
    r.set_squad(Squad { uuid: 10, leader: 0, members: vec![0, 1, 2] });
    r.set_squad(Squad { uuid: 20, leader: 3, members: vec![3, 4] });
    r.set_squad(Squad { uuid: 30, leader: 5, members: vec![5] });
    r
}

#[test]
fn squads_and_leaders() {
    let r = battle();
    assert_eq!(r.squad_count(), 3);
    assert_eq!(r.position(20), Some(1));
    assert_eq!(r.position(99), None);
    assert!(r.soldier_is_squad_leader(3));
    assert!(!r.soldier_is_squad_leader(4));
    assert_eq!(r.squad_side(30), Side::B);
    assert_eq!(r.all_orders(Side::A), vec![(10, OrderKind::Idle), (20, OrderKind::Idle)]);
    assert_eq!(r.all_orders(Side::All).len(), 3);
}

#[test]
fn a_squad_without_its_leader_joins_another() {
    let mut r = battle();
    r.react(3, SoldierEvent::SetOrder(OrderKind::Defend), 0);
    r.react(3, SoldierEvent::SetBehavior(BehaviorKind::Defend), 0);
    r.react(1, SoldierEvent::SetOrder(OrderKind::MoveTo), 0);
    r.react(2, SoldierEvent::SetAlive(false), 0);
    r.react(0, SoldierEvent::SetAlive(false), 0);
    assert!(!r.takes_new_leader(10));
    r.replace_leader(10, 1);
    assert_eq!(r.squad_count(), 2);
    assert_eq!(r.position(10), None);
    let (uuid, leader, members) = r.squad_at(r.position(20).unwrap());
    assert_eq!((uuid, leader), (20, 3));
    assert_eq!(members, vec![3, 4, 1]);
    let s1 = r.soldier(1);
    assert_eq!(s1.squad_uuid(), 20);
    assert_eq!(s1.order(), OrderKind::Defend);
    assert_eq!(s1.behavior(), BehaviorKind::Defend);
    // The dead stay where they were.
    assert_eq!(r.soldier(2).squad_uuid(), 10);
}

#[test]
fn a_squad_alone_follows_its_new_leader() {
    let mut r = battle();
    r.react(3, SoldierEvent::SetAlive(false), 0);
    r.react(0, SoldierEvent::SetOrder(OrderKind::Hide), 0);
    assert!(r.takes_new_leader(10));
    r.replace_leader(10, 1);
    let (uuid, leader, members) = r.squad_at(r.position(10).unwrap());
    assert_eq!((uuid, leader), (10, 1));
    assert_eq!(members, vec![0, 1, 2]);
    // Everyone stood by, then followed the new leader, who stood by too.
    assert_eq!(r.soldier(0).order(), OrderKind::Idle);
    assert_eq!(r.soldier(0).behavior(), BehaviorKind::Idle(Body::StandUp));
    r.replace_leader(99, 0);
    assert_eq!(r.squad_count(), 3);
}

#[test]
fn roster_events() {
    let mut r = battle();
    assert_eq!(r.react(4, SoldierEvent::PromiseSupport(60), 10), Aftermath::EaseStress(100));
    assert_eq!(r.soldier(4).support_promise_end_frame_i(), 70);
    assert_eq!(r.soldier(3).support_promise_end_frame_i(), 0);
    r.set_squad(Squad { uuid: 20, leader: 4, members: vec![4, 3] });
    assert_eq!(r.squad_count(), 3);
    assert!(r.soldier_is_squad_leader(4));
}
