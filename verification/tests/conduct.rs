use clawcombat::conduct::{
    obeys, propagation, Propagation,
    needs_help, pick_reserve, ReserveCandidate, idle_step, soldier_step, Checkpoint, Entry, Goal, GrenadeAim, IdlePlan, IdleSituation,
    OrderChange, SoldierSituation,
};
use clawcombat::doctrine::OrderKind;
use clawcombat::gesture::Stress;
use clawcombat::soldier::{BehaviorKind, Body};

const CALM: Stress = Stress { is_danger: false, is_max: false };
const DANGER: Stress = Stress { is_danger: true, is_max: false };

fn base() -> SoldierSituation {
    SoldierSituation {
        alive: true,
        uuid: 0,
        has_checkpoint: true,
        order: OrderKind::Idle,
        eager: false,
        is_scout: false,
        stress: CALM,
        support_promise_end: 0,
        enemy_within_breach_range: false,
        nearest_fire_m: None,
        covered: false,
        grenades: 2,
        frame: 1000,
        last_grenade_frame: 0,
        indoor: false,
        squad_recent_breach: false,
        breach_candidate: None,
        nearest_objective_m: None,
        objective_guarded: false,
        target_m: None,
        flank_path: false,
        animate_freq: 20,
        entry: None,
    }
}

#[test]
fn the_dead_do_nothing() {
    let plan = soldier_step(&SoldierSituation { alive: false, stress: DANGER, ..base() });
    assert!(plan.grenades.is_empty() && plan.change.is_none() && plan.behave_by.is_none());
    assert!(!plan.record_checkpoint && !plan.forced);
}

#[test]
fn a_hidden_soldier_gets_up() {
    let plan = soldier_step(&SoldierSituation { order: OrderKind::Hide, has_checkpoint: false, ..base() });
    assert!(plan.wake && plan.forced && plan.record_checkpoint);
    assert_eq!(plan.behave_by, Some(OrderKind::Idle));
    // Defending holds unless the soldier is eager.
    let plan = soldier_step(&SoldierSituation { order: OrderKind::Defend, ..base() });
    assert!(!plan.wake);
    assert_eq!(plan.behave_by, Some(OrderKind::Defend));
}

#[test]
fn panic_throws_blind_and_hides() {
    let s = SoldierSituation { stress: DANGER, nearest_fire_m: Some(80), ..base() };
    let plan = soldier_step(&s);
    assert!(plan.panic && plan.forced);
    assert_eq!(plan.grenades, vec![GrenadeAim::TowardFire]);
    assert_eq!(plan.change, Some(OrderChange::Hide));
    assert_eq!(plan.behave_by, None);
    // Too soon after the last grenade: he only hides.
    let plan = soldier_step(&SoldierSituation { last_grenade_frame: 900, ..s });
    assert!(plan.panic && plan.grenades.is_empty());
    // No fire remembered: no panic.
    let plan = soldier_step(&SoldierSituation { nearest_fire_m: None, ..s });
    assert!(!plan.panic);
    // Covered scout: relieved, no panic.
    let plan = soldier_step(&SoldierSituation { is_scout: true, covered: true, ..s });
    assert!(!plan.panic && plan.relieved);
    // A defender holds unless breached.
    let plan = soldier_step(&SoldierSituation { order: OrderKind::Defend, ..s });
    assert!(!plan.panic);
    let plan = soldier_step(&SoldierSituation { order: OrderKind::Defend, enemy_within_breach_range: true, ..s });
    assert!(plan.panic);
}

#[test]
fn point_man_alarm_makes_a_scout_panic() {
    let s = SoldierSituation { is_scout: true, nearest_fire_m: Some(35), order: OrderKind::MoveTo, ..base() };
    assert!(soldier_step(&s).panic);
    assert!(!soldier_step(&SoldierSituation { nearest_fire_m: Some(36), ..s }).panic);
}

#[test]
fn grenades_into_buildings_and_at_flags() {
    let s = SoldierSituation { order: OrderKind::MoveTo, breach_candidate: Some(4), ..base() };
    assert_eq!(soldier_step(&s).grenades, vec![GrenadeAim::IntoBuilding(4)]);
    // One soldier of three keeps his grenade.
    assert!(soldier_step(&SoldierSituation { uuid: 2, ..s }).grenades.is_empty());
    let a = SoldierSituation { eager: true, nearest_objective_m: Some(25), objective_guarded: true, ..s };
    assert_eq!(soldier_step(&a).grenades, vec![GrenadeAim::IntoBuilding(4), GrenadeAim::AtObjective]);
    assert_eq!(soldier_step(&SoldierSituation { nearest_objective_m: Some(26), ..a }).grenades, vec![GrenadeAim::IntoBuilding(4)]);
}

#[test]
fn flanking_on_its_turn() {
    // uuid 0: offset 0, turn every 300 frames.
    let s = SoldierSituation { eager: true, target_m: Some(30), flank_path: true, frame: 900, ..base() };
    let plan = soldier_step(&s);
    assert_eq!(plan.change, Some(OrderChange::Flank));
    assert_eq!(plan.behave_by, Some(OrderKind::SneakTo));
    assert!(soldier_step(&SoldierSituation { frame: 920, ..s }).change.is_none());
    assert!(soldier_step(&SoldierSituation { target_m: Some(5), ..s }).change.is_none());
}

#[test]
fn going_into_a_building() {
    let e = Entry { away_from_wall: true, inside: false, throwing: false, way_to_wall: true };
    let s = SoldierSituation { order: OrderKind::MoveTo, entry: Some(e), frame: 960, ..base() };
    assert_eq!(soldier_step(&s).change, Some(OrderChange::SneakToWall));
    let hold = Entry { away_from_wall: false, throwing: true, ..e };
    assert_eq!(soldier_step(&SoldierSituation { entry: Some(hold), ..s }).change, Some(OrderChange::HoldAtWall));
    let storm = Entry { away_from_wall: false, ..e };
    let plan = soldier_step(&SoldierSituation { entry: Some(storm), ..s });
    assert_eq!(plan.change, Some(OrderChange::Storm));
    assert_eq!(plan.behave_by, Some(OrderKind::MoveFastTo));
    // Not his turn.
    assert!(soldier_step(&SoldierSituation { frame: 961, ..s }).change.is_none());
}

fn idle() -> IdleSituation {
    IdleSituation {
        indoor: false,
        bold: true,
        opponent: None,
        is_scout: false,
        support_fire: false,
        stress: CALM,
        leads: true,
        on_turn: true,
        checkpoint: None,
        goal: None,
    }
}

#[test]
fn an_idle_leader_goes_for_his_flag() {
    let route = Goal { via_wall: false, same_cell: false, route_found: true, run_in_found: false };
    assert_eq!(idle_step(&IdleSituation { goal: Some(route), ..idle() }), IdlePlan::Advance { fast: false, via_wall: false, run_in: false });
    assert_eq!(idle_step(&IdleSituation { goal: Some(route), is_scout: true, ..idle() }), IdlePlan::Advance { fast: true, via_wall: false, run_in: false });
    let blocked = Goal { via_wall: false, same_cell: false, route_found: false, run_in_found: false };
    assert_eq!(idle_step(&IdleSituation { goal: Some(blocked), is_scout: true, ..idle() }), IdlePlan::PassTurn);
    assert_eq!(idle_step(&IdleSituation { goal: Some(blocked), ..idle() }), IdlePlan::Wait);
    assert_eq!(idle_step(&IdleSituation { goal: Some(route), on_turn: false, ..idle() }), IdlePlan::Wait);
}

#[test]
fn the_main_body_keeps_to_its_checkpoint() {
    let far = Checkpoint { distance_m: 16, same_cell: false, way_found: true };
    let route = Goal { via_wall: false, same_cell: false, route_found: true, run_in_found: false };
    assert_eq!(idle_step(&IdleSituation { checkpoint: Some(far), goal: Some(route), ..idle() }), IdlePlan::ReturnToCheckpoint);
    let near = Checkpoint { distance_m: 15, ..far };
    assert_eq!(idle_step(&IdleSituation { checkpoint: Some(near), goal: Some(route), ..idle() }), IdlePlan::Wait);
    // No way back: the flag is tried instead.
    let cut_off = Checkpoint { way_found: false, ..far };
    assert_eq!(idle_step(&IdleSituation { checkpoint: Some(cut_off), goal: Some(route), ..idle() }), IdlePlan::Advance { fast: false, via_wall: false, run_in: false });
}

#[test]
fn a_scout_without_a_flag_goes_home_and_passes() {
    let s = IdleSituation { is_scout: true, ..idle() };
    let far = Checkpoint { distance_m: 40, same_cell: false, way_found: true };
    assert_eq!(idle_step(&IdleSituation { checkpoint: Some(far), ..s }), IdlePlan::ReturnToCheckpoint);
    let cut_off = Checkpoint { way_found: false, ..far };
    assert_eq!(idle_step(&IdleSituation { checkpoint: Some(cut_off), ..s }), IdlePlan::PassTurn);
    let home = Checkpoint { distance_m: 3, ..far };
    assert_eq!(idle_step(&IdleSituation { checkpoint: Some(home), ..s }), IdlePlan::PassTurn);
    assert_eq!(idle_step(&s), IdlePlan::Wait);
}

#[test]
fn fights_come_before_routes() {
    assert_eq!(idle_step(&IdleSituation { opponent: Some(3), ..idle() }), IdlePlan::Engage(3));
    assert_eq!(idle_step(&IdleSituation { stress: DANGER, ..idle() }), IdlePlan::TakeCover);
    assert_eq!(idle_step(&IdleSituation { indoor: true, bold: false, ..idle() }), IdlePlan::HoldIndoors(None));
}

#[test]
fn reserves_are_sent_once() {
    assert!(needs_help(true, true, 2, 3));
    assert!(!needs_help(true, true, 0, 3));
    assert!(!needs_help(true, false, 2, 3));
    assert!(!needs_help(false, true, 2, 3));
    let c = |squad, available, behind_front| ReserveCandidate { squad, available, behind_front };
    let ranked = vec![c(4, false, true), c(5, true, false), c(6, true, true)];
    assert_eq!(pick_reserve(&ranked, &vec![1], false), Some(1));
    // Squad 5 was already sent on this tick.
    assert_eq!(pick_reserve(&ranked, &vec![1, 5], false), Some(2));
    // Filling a gap takes only squads behind the front.
    assert_eq!(pick_reserve(&ranked, &vec![1], true), Some(2));
    assert_eq!(pick_reserve(&ranked, &vec![1, 6], true), None);
}

#[test]
fn a_flag_in_a_building_is_reached_by_its_wall() {
    let wall = Goal { via_wall: true, same_cell: false, route_found: true, run_in_found: true };
    assert_eq!(
        idle_step(&IdleSituation { goal: Some(wall), is_scout: true, ..idle() }),
        IdlePlan::Advance { fast: true, via_wall: true, run_in: true }
    );
    let no_way_in = Goal { run_in_found: false, ..wall };
    assert_eq!(
        idle_step(&IdleSituation { goal: Some(no_way_in), ..idle() }),
        IdlePlan::Advance { fast: false, via_wall: true, run_in: false }
    );
}

#[test]
fn a_dead_soldier_needs_no_counters_in_range() {
    let plan = soldier_step(&SoldierSituation { alive: false, animate_freq: 0, frame: u64::MAX, ..base() });
    assert!(plan.behave_by.is_none());
}

#[test]
fn how_behaviour_reaches_the_squad() {
    assert_eq!(propagation(BehaviorKind::SneakTo, false), Propagation::Move);
    assert_eq!(propagation(BehaviorKind::MoveTo, true), Propagation::Drive);
    assert_eq!(propagation(BehaviorKind::Hide, false), Propagation::DefendOrHide);
    assert_eq!(propagation(BehaviorKind::Defend, true), Propagation::Rotate);
    assert_eq!(propagation(BehaviorKind::Idle(Body::StandUp), false), Propagation::Keep);
    assert_eq!(propagation(BehaviorKind::Dead, false), Propagation::Keep);
    assert_eq!(propagation(BehaviorKind::OffMapTransit(900), false), Propagation::OffMap(900));
    assert_eq!(propagation(BehaviorKind::SuppressFire, false), Propagation::Suppress);
    assert_eq!(propagation(BehaviorKind::EngageSoldier(7), false), Propagation::Engage(7));
}

#[test]
fn the_suppression_lock() {
    let idle = BehaviorKind::Idle(Body::Crouched);
    // A calm member takes every order.
    assert!(obeys(CALM, OrderKind::Idle, idle, OrderKind::SuppressFire));
    // One in panic takes only orders to take or keep cover.
    assert!(!obeys(DANGER, OrderKind::Idle, idle, OrderKind::MoveTo));
    assert!(!obeys(DANGER, OrderKind::Idle, idle, OrderKind::EngageSquad));
    assert!(obeys(DANGER, OrderKind::Idle, idle, OrderKind::Hide));
    assert!(obeys(DANGER, OrderKind::Idle, idle, OrderKind::OffMapTransit));
    // One hiding from a blast still follows a move, not a fight.
    assert!(obeys(CALM, OrderKind::Hide, BehaviorKind::Hide, OrderKind::SneakTo));
    assert!(!obeys(CALM, OrderKind::Hide, BehaviorKind::Hide, OrderKind::EngageSquad));
}
