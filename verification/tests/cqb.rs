use clawcombat::cqb::{
    breach_target, entry_step, grass, sheltered_stacking_tile, stacking_tile, walkable, Building,
    EntryStep,
};
use clawcombat::terrain::TileType;

#[test]
fn which_building_is_cleared() {
    let far_with_enemy = Building { distance_m: 21, enemy_inside: true, open_flag_inside: false };
    let near_empty = Building { distance_m: 5, enemy_inside: false, open_flag_inside: false };
    let near_flag = Building { distance_m: 20, enemy_inside: false, open_flag_inside: true };
    let near_enemy = Building { distance_m: 0, enemy_inside: true, open_flag_inside: false };
    assert_eq!(breach_target(true, &vec![far_with_enemy, near_empty, near_flag, near_enemy]), Some(2));
    assert_eq!(breach_target(false, &vec![near_enemy]), None);
    assert_eq!(breach_target(true, &vec![far_with_enemy, near_empty]), None);
}

#[test]
fn where_soldiers_stack_up() {
    assert!(!walkable(TileType::BrickWall));
    assert!(!walkable(TileType::Trunk));
    assert!(!walkable(TileType::DeepWater));
    assert!(walkable(TileType::Water));
    assert!(grass(TileType::MiddleGrass));
    assert!(!grass(TileType::Dirt));
    let wall = vec![None, Some(TileType::Dirt), Some(TileType::BrickWall), Some(TileType::Concrete)];
    let open = vec![None, Some(TileType::Dirt), Some(TileType::Hedge), Some(TileType::Concrete)];
    assert!(stacking_tile(TileType::ShortGrass, &wall));
    assert!(!stacking_tile(TileType::ShortGrass, &open));
    assert!(!stacking_tile(TileType::Trunk, &wall));
    assert!(sheltered_stacking_tile(TileType::Dirt, &wall));
    assert!(!sheltered_stacking_tile(TileType::HighGrass, &wall));
}

#[test]
fn the_steps_of_going_in() {
    assert_eq!(entry_step(true, false, false), EntryStep::Approach);
    assert_eq!(entry_step(true, false, true), EntryStep::Approach);
    assert_eq!(entry_step(false, false, true), EntryStep::Clear);
    assert_eq!(entry_step(false, false, false), EntryStep::Storm);
    assert_eq!(entry_step(true, true, true), EntryStep::Storm);
}
