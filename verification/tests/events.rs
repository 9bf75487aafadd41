use clawcombat::doctrine::OrderKind;
use clawcombat::events::{
    death_cause, finish_behavior, next_visibility_index, remember, shooter_side, Bystander, Danger, Runner, RunnerEvent,
    DeathCause, Strike,
};
use clawcombat::path::GridPoint;
use clawcombat::pings::{Ping, TacticalPings};
use clawcombat::tally::Side;

#[test]
fn who_fired_a_shot() {
    let far_a = Bystander { distance_m: 2, side: Side::A };
    let near_a = Bystander { distance_m: 1, side: Side::A };
    let near_b = Bystander { distance_m: 0, side: Side::B };
    assert_eq!(shooter_side(&vec![far_a, near_a, near_b]), Side::A);
    assert_eq!(shooter_side(&vec![far_a]), Side::B);
    assert_eq!(shooter_side(&vec![]), Side::B);
}

#[test]
fn dangers_are_remembered() {
    let mut pings = TacticalPings::new();
    let cell = GridPoint { x: 3, y: 4 };
    remember(&mut pings, Danger::Death { cell, side: Side::A }, 100);
    assert_eq!(pings.lookup(cell), Some(Ping { cell, expire_frame: 3700, side: Side::B }));
    let origin = GridPoint { x: 1, y: 1 };
    let impact = GridPoint { x: 3, y: 4 };
    remember(&mut pings, Danger::Bullet { origin, impact, shooter: Side::B }, 200);
    assert_eq!(pings.lookup(origin), Some(Ping { cell: origin, expire_frame: 2000, side: Side::B }));
    assert_eq!(pings.lookup(impact), Some(Ping { cell: impact, expire_frame: 2000, side: Side::B }));
    let gun = GridPoint { x: 9, y: 9 };
    remember(&mut pings, Danger::Cannon { origin: gun, shooter: Side::A }, 300);
    assert_eq!(pings.lookup(gun), Some(Ping { cell: gun, expire_frame: 2100, side: Side::A }));
    assert_eq!(pings.len(), 3);
}

#[test]
fn what_killed_a_soldier() {
    let idle_near = Strike { active: false, distance_m: 1 };
    let hit = Strike { active: true, distance_m: 5 };
    let miss = Strike { active: true, distance_m: 6 };
    let blast = Strike { active: true, distance_m: 20 };
    assert_eq!(death_cause(&vec![idle_near, miss, hit], &vec![blast]), DeathCause::Shot(2));
    assert_eq!(death_cause(&vec![miss], &vec![miss, blast]), DeathCause::Blast(0));
    assert_eq!(death_cause(&vec![idle_near], &vec![Strike { active: true, distance_m: 21 }]), DeathCause::Unknown);
}

#[test]
fn visibility_turns_round() {
    assert_eq!(next_visibility_index(0, 3), 1);
    assert_eq!(next_visibility_index(2, 3), 0);
    assert_eq!(next_visibility_index(5, 3), 0);
}

#[test]
fn after_a_behaviour() {
    assert_eq!(finish_behavior(false, Some(OrderKind::Defend)), None);
    assert_eq!(finish_behavior(true, Some(OrderKind::Defend)), Some(OrderKind::Defend));
    assert_eq!(finish_behavior(true, None), Some(OrderKind::Idle));
}

#[test]
fn the_runner_remembers_and_turns_round() {

    let mut runner = Runner::new();
    let cell = GridPoint { x: 2, y: 2 };
    runner.react(
        &vec![
            RunnerEvent::IncrementVisibilityIndex,
            RunnerEvent::Danger(Danger::Death { cell, side: Side::B }),
            RunnerEvent::Other,
            RunnerEvent::IncrementVisibilityIndex,
        ],
        2,
        10,
    );
    assert_eq!(runner.current_visibility, 0);
    assert_eq!(runner.tactical_pings.lookup(cell), Some(Ping { cell, expire_frame: 3610, side: Side::A }));
    runner.react(&vec![RunnerEvent::IncrementVisibilityIndex], 3, 20);
    assert_eq!(runner.current_visibility, 1);
    assert_eq!(runner.tactical_pings.len(), 1);
}
