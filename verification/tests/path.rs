use clawcombat::path::{
    keep_tactical_step, near_cover_bonus, path_points, stealth_step_cost, tactical_step_cost,
    walk_step_cost, Angle, Direction, GridPoint, PathMode, VehicleSize, COST_AHEAD, COST_BACK,
    COST_BACK_CORNER, COST_CORNER, COST_DIAGONAL,
};
use clawcombat::terrain::TileType;

const CLOCKWISE: [Direction; 8] = [
    Direction::North,
    Direction::NorthEst,
    Direction::Est,
    Direction::SouthEst,
    Direction::South,
    Direction::SouthWest,
    Direction::West,
    Direction::NorthWest,
];

#[test]
fn path_mode_includes_vehicles_when_driving() {
    assert!(!PathMode::Walk.include_vehicles());
    assert!(PathMode::Drive(VehicleSize(2, 3)).include_vehicles());
}

#[test]
fn from_angle_sectors() {
    assert_eq!(Direction::from_angle(&Angle(0)), Direction::North);
    assert_eq!(Direction::from_angle(&Angle(2250)), Direction::North);
    assert_eq!(Direction::from_angle(&Angle(2251)), Direction::NorthEst);
    assert_eq!(Direction::from_angle(&Angle(9000)), Direction::Est);
    assert_eq!(Direction::from_angle(&Angle(18000)), Direction::South);
    assert_eq!(Direction::from_angle(&Angle(27000)), Direction::West);
    assert_eq!(Direction::from_angle(&Angle(29251)), Direction::NorthWest);
    assert_eq!(Direction::from_angle(&Angle(33749)), Direction::NorthWest);
    assert_eq!(Direction::from_angle(&Angle(33750)), Direction::North);
    assert_eq!(Direction::from_angle(&Angle(-4500)), Direction::North);
    assert_eq!(Direction::from_angle(&Angle(40000)), Direction::North);
    for (i, d) in CLOCKWISE.iter().enumerate() {
        assert_eq!(Direction::from_angle(&Angle(4500 * i as i64)), *d);
    }
}

#[test]
fn modifiers() {
    assert_eq!(Direction::North.modifier(), (0, -1));
    assert_eq!(Direction::NorthEst.modifier(), (1, -1));
    assert_eq!(Direction::Est.modifier(), (1, 0));
    assert_eq!(Direction::SouthEst.modifier(), (1, 1));
    assert_eq!(Direction::South.modifier(), (0, 1));
    assert_eq!(Direction::SouthWest.modifier(), (-1, 1));
    assert_eq!(Direction::West.modifier(), (-1, 0));
    assert_eq!(Direction::NorthWest.modifier(), (-1, -1));
    for i in 0..8 {
        let (x, y) = CLOCKWISE[i].modifier();
        let (ox, oy) = CLOCKWISE[(i + 4) % 8].modifier();
        assert_eq!((x, y), (-ox, -oy));
    }
}

#[test]
fn angle_costs() {
    assert_eq!(Direction::North.angle_cost(&Direction::North), COST_AHEAD);
    assert_eq!(Direction::North.angle_cost(&Direction::NorthEst), COST_DIAGONAL);
    assert_eq!(Direction::North.angle_cost(&Direction::West), COST_CORNER);
    assert_eq!(Direction::North.angle_cost(&Direction::SouthWest), COST_BACK_CORNER);
    assert_eq!(Direction::North.angle_cost(&Direction::South), COST_BACK);
    assert_eq!(Direction::SouthWest.angle_cost(&Direction::NorthEst), COST_BACK);
    assert_eq!(Direction::Est.angle_cost(&Direction::NorthWest), COST_BACK_CORNER);
    let by_steps = [0, 10, 20, 30, 50];
    for a in 0..8 {
        for b in 0..8 {
            let d = if a > b { a - b } else { b - a };
            let steps = if d <= 4 { d } else { 8 - d };
            assert_eq!(CLOCKWISE[a].angle_cost(&CLOCKWISE[b]), by_steps[steps]);
            assert_eq!(
                CLOCKWISE[a].angle_cost(&CLOCKWISE[b]),
                CLOCKWISE[b].angle_cost(&CLOCKWISE[a])
            );
        }
    }
}

#[test]
fn cover_bonus() {
    assert_eq!(near_cover_bonus(&[None, None, None, None], 5), 0);
    assert_eq!(near_cover_bonus(&[Some(TileType::ShortGrass), None, Some(TileType::Water), None], 5), 0);
    assert_eq!(near_cover_bonus(&[None, Some(TileType::Hedge), None, None], 5), 5);
    assert_eq!(near_cover_bonus(&[Some(TileType::BrickWall), Some(TileType::Trunk), None, None], 40), 40);
    assert_eq!(near_cover_bonus(&[], 5), 0);
}

#[test]
fn walk_costs() {
    let open = [Some(TileType::Dirt), None, None, None];
    let cover = [Some(TileType::Dirt), None, Some(TileType::MiddleRock), None];
    assert_eq!(walk_step_cost(20, &open), 20);
    assert_eq!(walk_step_cost(20, &cover), 15);
    assert_eq!(walk_step_cost(3, &cover), 1);
    assert_eq!(walk_step_cost(0, &open), 1);
}

#[test]
fn tactical_costs() {
    let cover = [None, Some(TileType::Trunk), None, None];
    assert_eq!(tactical_step_cost(20, &cover, None), 15);
    assert_eq!(tactical_step_cost(20, &cover, Some(100)), 115);
    assert_eq!(tactical_step_cost(20, &cover, Some(-100)), 1);
    assert!(keep_tactical_step(9999));
    assert!(!keep_tactical_step(10000));
}

#[test]
fn stealth_costs() {
    let none = [None, None, None, None];
    let cover = [None, None, None, Some(TileType::Hedge)];
    assert_eq!(stealth_step_cost(20, &none, Some(TileType::Underbrush)), 1);
    assert_eq!(stealth_step_cost(20, &none, Some(TileType::ShortGrass)), 520);
    assert_eq!(stealth_step_cost(20, &cover, Some(TileType::ShortGrass)), 480);
    assert_eq!(stealth_step_cost(20, &cover, Some(TileType::Mud)), 1);
    assert_eq!(stealth_step_cost(60, &cover, Some(TileType::Mud)), 20);
    assert_eq!(stealth_step_cost(60, &none, None), 60);
}

#[test]
fn path_points_with_and_without_first() {
    let path = vec![
        (GridPoint { x: 0, y: 0 }, Direction::North),
        (GridPoint { x: 1, y: 0 }, Direction::Est),
        (GridPoint { x: 2, y: 1 }, Direction::SouthEst),
    ];
    assert_eq!(
        path_points(&path, false),
        Some(vec![GridPoint { x: 0, y: 0 }, GridPoint { x: 1, y: 0 }, GridPoint { x: 2, y: 1 }])
    );
    assert_eq!(
        path_points(&path, true),
        Some(vec![GridPoint { x: 1, y: 0 }, GridPoint { x: 2, y: 1 }])
    );
    let single = vec![(GridPoint { x: 4, y: 4 }, Direction::West)];
    assert_eq!(path_points(&single, true), None);
    assert_eq!(path_points(&single, false), Some(vec![GridPoint { x: 4, y: 4 }]));
}
