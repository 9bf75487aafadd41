use clawcombat::doctrine::OrderKind;
use clawcombat::soldier::{Aftermath, BehaviorKind, Body, Soldier, SoldierAnimationType, SoldierEvent};
use clawcombat::tally::Side;

#[test]
fn new_soldier_can_act() {
    let s = Soldier::new(3, 1, Side::A, 2);
    assert!(s.can_be_animated());
    assert!(s.can_be_leader());
    assert!(s.can_take_flag());
    assert!(s.can_feel_explosion());
    assert_eq!(s.body(), Body::StandUp);
    assert_eq!(s.animation_type(), SoldierAnimationType::Idle);
    assert_eq!(s.target(), None);
    assert_eq!(s.grenades(), 2);
    assert_eq!(s.order(), OrderKind::Idle);
}

#[test]
fn bodies_and_animations() {
    let cases = [
        (BehaviorKind::MoveTo, Body::StandUp, SoldierAnimationType::Walking),
        (BehaviorKind::SneakTo, Body::Lying, SoldierAnimationType::Crawling),
        (BehaviorKind::Idle(Body::Lying), Body::Lying, SoldierAnimationType::Crawling),
        (BehaviorKind::Idle(Body::Crouched), Body::Crouched, SoldierAnimationType::Idle),
        (BehaviorKind::DriveTo, Body::Crouched, SoldierAnimationType::Idle),
        (BehaviorKind::Defend, Body::Lying, SoldierAnimationType::LyingDown),
        (BehaviorKind::Dead, Body::Lying, SoldierAnimationType::DeadWithSideBlood),
        (BehaviorKind::EngageSoldier(4), Body::Lying, SoldierAnimationType::LyingDown),
        (BehaviorKind::OffMapTransit(90), Body::StandUp, SoldierAnimationType::Idle),
    ];
    for (b, body, anim) in cases {
        let mut s = Soldier::new(0, 0, Side::B, 0);
        s.set_behavior(b);
        assert_eq!(s.body(), body);
        assert_eq!(s.animation_type(), anim);
    }
}

#[test]
fn off_map_and_unconscious() {
    let mut s = Soldier::new(1, 1, Side::A, 0);
    s.set_behavior(BehaviorKind::OffMapTransit(100));
    assert!(!s.can_be_animated());
    assert!(s.can_be_count_for_morale());
    assert!(!s.can_feel_bullet_fire());
    let mut t = Soldier::new(2, 1, Side::B, 0);
    t.set_unconscious(true);
    assert!(!t.can_be_leader());
    assert!(t.can_feel_explosion());
    assert!(!t.can_be_count_for_morale());
    t.set_alive(false);
    assert!(!t.can_feel_explosion());
}

#[test]
fn target_and_resupply() {
    let mut s = Soldier::new(1, 1, Side::A, 0);
    s.set_behavior(BehaviorKind::EngageSoldier(9));
    assert_eq!(s.target(), Some(9));
    s.replenish_ammunition(false);
    assert_eq!(s.grenades(), 0);
    s.replenish_ammunition(true);
    assert_eq!(s.grenades(), 3);
    s.set_last_grenade_frame_i(77);
    s.set_last_hide_frame_i(66);
    let c = Soldier::from_soldier(&s);
    assert_eq!(c.grenades(), 3);
    assert_eq!(c.last_grenade_frame_i(), 77);
    assert_eq!(c.last_hide_frame_i(), 66);
    assert_eq!(c.target(), None);
}

#[test]
fn reacting_to_events() {
    let mut s = Soldier::new(5, 2, Side::B, 1);
    assert_eq!(s.side(), Side::B);
    assert_eq!(s.react(SoldierEvent::SetBehavior(BehaviorKind::Hide), 40), Aftermath::RefreshAnimation);
    assert_eq!(s.last_hide_frame_i(), 40);
    // Staying in cover keeps the frame it went to cover.
    s.react(SoldierEvent::SetBehavior(BehaviorKind::Defend), 90);
    assert_eq!(s.last_hide_frame_i(), 40);
    s.react(SoldierEvent::SetBehavior(BehaviorKind::MoveTo), 100);
    s.react(SoldierEvent::SetBehavior(BehaviorKind::ScatterToCover), 120);
    assert_eq!(s.last_hide_frame_i(), 120);
    assert_eq!(s.react(SoldierEvent::UnderFire, 130), Aftermath::Nothing);
    assert_eq!(s.last_shot_frame_i(), 130);
    assert_eq!(s.react(SoldierEvent::PromiseSupport(300), 200), Aftermath::EaseStress(100));
    assert_eq!(s.support_promise_end_frame_i(), 500);
    assert_eq!(s.react(SoldierEvent::CheckSupportPromise, 499), Aftermath::Nothing);
    assert_eq!(s.react(SoldierEvent::CheckSupportPromise, 500), Aftermath::RaiseStress(200));
    assert_eq!(s.support_promise_end_frame_i(), 0);
    assert_eq!(s.react(SoldierEvent::CheckSupportPromise, 900), Aftermath::Nothing);
    s.react(SoldierEvent::ConsumeGrenade, 1);
    s.react(SoldierEvent::ConsumeGrenade, 2);
    assert_eq!(s.grenades(), 0);
    s.react(SoldierEvent::ReplenishAmmunition(true), 3);
    assert_eq!(s.grenades(), 3);
    s.react(SoldierEvent::SetOrder(OrderKind::Hide), 4);
    assert_eq!(s.order(), OrderKind::Hide);
    s.react(SoldierEvent::SetAlive(false), 5);
    assert!(!s.alive());
}
