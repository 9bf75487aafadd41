use clawcombat::doctrine::{
    ammo_action, defense_breached, has_support_fire, idle_choice, Comrade, IdleChoice, assault_grenade, count_around, flank_range, grenade_ready, has_ammo,
    holds_position, is_turn, outnumbered, panics, pointman_under_attack, promise_outcome,
    reserve_available, resupply_end, runs_at, seeks_breach, squad_recently_breached,
    stagger_offset, successor, throw_end, throws_at_breach, wakes_up, AmmoAction, OrderKind,
    PromiseOutcome,
};
use clawcombat::gesture::Stress;

const CALM: Stress = Stress { is_danger: false, is_max: false };
const DANGER: Stress = Stress { is_danger: true, is_max: false };

#[test]
fn who_wakes_up() {
    assert!(holds_position(OrderKind::Defend));
    assert!(holds_position(OrderKind::Hide));
    assert!(!holds_position(OrderKind::SneakTo));
    assert!(wakes_up(OrderKind::Hide, false, CALM, 0));
    assert!(!wakes_up(OrderKind::Defend, false, CALM, 0));
    assert!(wakes_up(OrderKind::Defend, true, CALM, 0));
    assert!(!wakes_up(OrderKind::Hide, true, DANGER, 0));
    assert!(!wakes_up(OrderKind::Hide, true, CALM, 900));
    assert!(!wakes_up(OrderKind::Idle, true, CALM, 0));
}

#[test]
fn who_panics() {
    assert!(pointman_under_attack(true, Some(35)));
    assert!(!pointman_under_attack(true, Some(36)));
    assert!(!pointman_under_attack(false, Some(1)));
    assert!(!pointman_under_attack(true, None));
    assert!(panics(false, false, false, DANGER, false));
    assert!(panics(true, true, false, CALM, true));
    assert!(!panics(true, false, false, DANGER, false));
    assert!(!panics(false, false, true, DANGER, false));
    assert!(!panics(false, false, false, CALM, false));
}

#[test]
fn grenade_rules() {
    assert!(grenade_ready(1, 121, 0, 120));
    assert!(!grenade_ready(1, 120, 0, 120));
    assert!(!grenade_ready(0, 1000, 0, 120));
    assert!(squad_recently_breached(1000, &vec![0, 5, 100]));
    assert!(!squad_recently_breached(1300, &vec![0, 5, 100]));
    assert!(!squad_recently_breached(10, &vec![]));
    assert!(seeks_breach(false, false, false));
    assert!(!seeks_breach(false, true, false));
    assert!(throws_at_breach(4, 1));
    assert!(!throws_at_breach(5, 1));
    assert!(!throws_at_breach(4, 0));
    assert!(assault_grenade(false, true, 2, 500, 100, Some(25), true));
    assert!(!assault_grenade(false, true, 2, 500, 100, Some(26), true));
    assert!(!assault_grenade(false, true, 2, 280, 100, Some(10), true));
    assert!(!assault_grenade(true, true, 2, 500, 100, Some(10), true));
    assert!(!assault_grenade(false, false, 2, 500, 100, Some(10), true));
    assert!(!assault_grenade(false, true, 2, 500, 100, None, true));
    assert!(!assault_grenade(false, true, 2, 500, 100, Some(10), false));
    for _ in 0..20 {
        let end = throw_end(1000);
        assert!(1060 <= end && end < 1090);
    }
}

#[test]
fn staggered_turns() {
    // Soldier 7, checked every 60 frames, animated every 20: slot (7*7) % 3.
    let offset = stagger_offset(49, 60, 20);
    assert_eq!(offset, 20);
    assert!(is_turn(40, offset, 60));
    assert!(!is_turn(60, offset, 60));
    assert!(is_turn(100, offset, 60));
    assert_eq!(stagger_offset(0, 300, 20), 0);
    assert_eq!(stagger_offset(29, 300, 20), 14 * 20);
    assert_eq!(stagger_offset(31, 300, 20), 20);
    assert!(flank_range(6));
    assert!(!flank_range(5));
    assert!(!flank_range(60));
}

#[test]
fn ammunition_rules() {
    assert!(has_ammo(true, false, false, true));
    assert!(!has_ammo(false, true, true, true));
    assert!(!has_ammo(true, false, false, false));
    assert_eq!(ammo_action(true, true, Some(100), true), AmmoAction::Carry);
    assert_eq!(ammo_action(false, false, Some(100), true), AmmoAction::Carry);
    assert_eq!(ammo_action(true, false, Some(5), false), AmmoAction::Resupply);
    assert_eq!(ammo_action(true, false, Some(6), true), AmmoAction::FallBack);
    assert_eq!(ammo_action(true, false, Some(6), false), AmmoAction::TakeCover);
    assert_eq!(ammo_action(true, false, None, true), AmmoAction::TakeCover);
    assert_eq!(resupply_end(20), 200);
}

#[test]
fn support_promises() {
    assert_eq!(promise_outcome(0, true, 10), PromiseOutcome::NoPromise);
    assert_eq!(promise_outcome(100, true, 500), PromiseOutcome::Fulfilled);
    assert_eq!(promise_outcome(100, false, 100), PromiseOutcome::Expired);
    assert_eq!(promise_outcome(100, false, 99), PromiseOutcome::Waiting);
}

#[test]
fn schedules() {
    assert!(runs_at(120, 20, true, true));
    assert!(!runs_at(120, 20, true, false));
    assert!(runs_at(120, 20, false, false));
    assert!(!runs_at(121, 20, false, true));
}

#[test]
fn squad_command() {
    assert_eq!(successor(true, &vec![true]), None);
    assert_eq!(successor(false, &vec![false, true, true]), Some(1));
    assert_eq!(successor(false, &vec![false, false]), None);
    assert!(outnumbered(2, 3));
    assert!(!outnumbered(0, 3));
    assert!(!outnumbered(3, 3));
    assert_eq!(count_around(&vec![10, 40, 41, 5, 0], &vec![true, false, true, false, true]), (2, 2));
    assert!(reserve_available(false, false, true, true, OrderKind::Defend, false));
    assert!(reserve_available(false, false, true, true, OrderKind::Idle, false));
    assert!(!reserve_available(false, false, true, true, OrderKind::MoveTo, false));
    assert!(!reserve_available(true, false, true, true, OrderKind::Idle, false));
    assert!(!reserve_available(false, true, true, true, OrderKind::Idle, false));
    assert!(!reserve_available(false, false, true, true, OrderKind::Idle, true));
}

#[test]
fn who_covers_a_scout() {
    let near_main_firing = Comrade { distance_m: 60, is_scout: false, firing: true };
    let far_main_firing = Comrade { distance_m: 61, is_scout: false, firing: true };
    let near_scout_firing = Comrade { distance_m: 10, is_scout: true, firing: true };
    let near_main_idle = Comrade { distance_m: 10, is_scout: false, firing: false };
    assert!(has_support_fire(&vec![far_main_firing, near_main_firing]));
    assert!(!has_support_fire(&vec![far_main_firing, near_scout_firing, near_main_idle]));
    assert!(!has_support_fire(&vec![]));
}

#[test]
fn when_a_position_is_breached() {
    assert!(defense_breached(true, &vec![40, 10]));
    assert!(!defense_breached(true, &vec![40, 11]));
    assert!(!defense_breached(false, &vec![1]));
    assert!(!defense_breached(true, &vec![]));
}

#[test]
fn what_an_idle_soldier_does() {
    assert_eq!(idle_choice(true, false, Some(4), false, false, DANGER, true, true), IdleChoice::HoldIndoors(Some(4)));
    assert_eq!(idle_choice(true, false, None, false, false, CALM, true, true), IdleChoice::HoldIndoors(None));
    assert_eq!(idle_choice(true, true, Some(4), false, false, CALM, true, true), IdleChoice::Engage(4));
    assert_eq!(idle_choice(false, false, Some(4), true, false, CALM, true, true), IdleChoice::Advance);
    assert_eq!(idle_choice(false, false, Some(4), true, true, CALM, true, true), IdleChoice::Engage(4));
    assert_eq!(idle_choice(false, false, None, false, false, DANGER, true, true), IdleChoice::TakeCover);
    assert_eq!(idle_choice(false, true, None, false, false, CALM, true, false), IdleChoice::Wait);
    assert_eq!(idle_choice(false, false, None, false, false, CALM, true, true), IdleChoice::Wait);
    assert_eq!(idle_choice(false, true, None, false, false, CALM, false, true), IdleChoice::Wait);
}
