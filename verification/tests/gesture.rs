use clawcombat::gesture::{
    aiming_end_with, fires_while_moving, firing_end_with, gesture_routine, reloading_end_with,
    settle_gesture, soldier_aiming_end, soldier_firing_end, soldier_reloading_end,
    FallbackBehavior, Gesture, GestureContext, GestureEffect, GestureOutcome, GestureResult,
    GestureRoutine, Stress, TARGET_FPS,
};
use clawcombat::soldier::{BehaviorKind, Body, WeaponClass};

const CALM: Stress = Stress { is_danger: false, is_max: false };
const DANGER: Stress = Stress { is_danger: true, is_max: false };
const MAX: Stress = Stress { is_danger: true, is_max: true };

#[test]
fn reloading_formula() {
    assert_eq!(reloading_end_with(100, CALM, 120, 7), 100 + TARGET_FPS + 120 + 7);
    assert_eq!(reloading_end_with(100, DANGER, 120, 7), 287);
    assert_eq!(reloading_end_with(100, MAX, 120, 7), 347);
}

#[test]
fn aiming_formula() {
    // In the open: a full second, the whole aiming time.
    assert_eq!(aiming_end_with(1000, CALM, false, false, 30, 50, 10), 1000 + 60 + 30 + 50 + 10);
    // Hiding or lying: half a second, half the aiming time.
    assert_eq!(aiming_end_with(1000, CALM, true, false, 31, 20, 10), 1000 + 30 + 15 + 20 + 10);
    assert_eq!(aiming_end_with(1000, CALM, false, true, 30, 20, 10), 1000 + 30 + 15 + 20 + 10);
    assert_eq!(aiming_end_with(1000, DANGER, false, false, 30, 50, 10), 1170);
    assert_eq!(aiming_end_with(1000, MAX, false, false, 30, 50, 10), 1190);
}

#[test]
fn firing_formula() {
    assert_eq!(firing_end_with(10, CALM, 3, 0), 18);
    assert_eq!(firing_end_with(10, DANGER, 3, 0), 33);
    assert_eq!(firing_end_with(10, MAX, 3, 49), 97);
}

#[test]
fn random_gesture_ends_stay_in_range() {
    let mut seen = std::collections::HashSet::new();
    for _ in 0..300 {
        let r = soldier_reloading_end(1000, MAX, 100);
        assert!((1000 + 60 + 100 + 60..1000 + 60 + 100 + 60 + 50).contains(&r));
        seen.insert(r);
        let f = soldier_firing_end(1000, DANGER, 8);
        assert!((1000 + 5 + 8 + 15..1000 + 5 + 8 + 15 + 50).contains(&f));
        let ambush = soldier_aiming_end(1000, CALM, true, false, 40);
        assert!((1000 + 30 + 20 + 10..1000 + 30 + 20 + 29 + 50).contains(&ambush));
        let open = soldier_aiming_end(1000, CALM, false, false, 40);
        assert!((1000 + 60 + 40 + 45..1000 + 60 + 40 + 89 + 50).contains(&open));
    }
    // The delay is drawn, not fixed.
    assert!(seen.len() > 1);
}

#[test]
fn which_routine_picks_the_gesture() {
    let idle = Gesture::Idle;
    assert_eq!(gesture_routine(true, idle, BehaviorKind::SuppressFire), GestureRoutine::Keep);
    assert_eq!(gesture_routine(false, Gesture::Throwing(90), BehaviorKind::SuppressFire), GestureRoutine::Keep);
    assert_eq!(gesture_routine(false, idle, BehaviorKind::Idle(Body::Lying)), GestureRoutine::Idle);
    assert_eq!(gesture_routine(false, idle, BehaviorKind::SuppressFire), GestureRoutine::SuppressFire);
    assert_eq!(gesture_routine(false, idle, BehaviorKind::EngageSoldier(3)), GestureRoutine::EngageSoldier(3));
    assert_eq!(gesture_routine(false, Gesture::Aiming(5, WeaponClass::Main), BehaviorKind::MoveFastTo), GestureRoutine::MoveAndShoot);
    assert_eq!(gesture_routine(false, idle, BehaviorKind::SneakTo), GestureRoutine::Rest);
}

#[test]
fn firing_while_moving() {
    assert!(fires_while_moving(Some(50), true));
    assert!(!fires_while_moving(Some(51), true));
    assert!(!fires_while_moving(Some(10), false));
    assert!(!fires_while_moving(None, true));
}

#[test]
fn what_a_new_gesture_sets_off() {
    let fire = Gesture::Firing(40, WeaponClass::Main);
    assert_eq!(
        settle_gesture(Gesture::Idle, GestureResult::Handled(GestureContext::Firing, fire)),
        GestureOutcome::Change { gesture: fire, effect: GestureEffect::Fire(WeaponClass::Main) }
    );
    assert_eq!(settle_gesture(fire, GestureResult::Handled(GestureContext::Firing, fire)), GestureOutcome::Nothing);
    let reload = Gesture::Reloading(70, WeaponClass::Main);
    assert_eq!(
        settle_gesture(fire, GestureResult::Handled(GestureContext::Idle, reload)),
        GestureOutcome::Change { gesture: reload, effect: GestureEffect::Reload(WeaponClass::Main) }
    );
    assert_eq!(
        settle_gesture(fire, GestureResult::Handled(GestureContext::Idle, Gesture::Aiming(9, WeaponClass::Main))),
        GestureOutcome::Change { gesture: Gesture::Aiming(9, WeaponClass::Main), effect: GestureEffect::Nothing }
    );
    assert_eq!(
        settle_gesture(fire, GestureResult::Cant(Some(FallbackBehavior(BehaviorKind::Hide)))),
        GestureOutcome::Fallback(BehaviorKind::Hide)
    );
    assert_eq!(settle_gesture(fire, GestureResult::Cant(None)), GestureOutcome::Nothing);
}
