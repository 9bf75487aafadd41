//! Clearing buildings: which building a squad clears with grenades before
//! going in, which tiles along a building's walls a soldier stacks up on,
//! and the three steps of going in: approach, clear, storm.

use vstd::prelude::*;
use crate::terrain::TileType;

verus! {

/// How near a building's centre, in meters, a soldier must come to clear
/// it with grenades before going in.
pub const BREACH_APPROACH_M: i64 = 20;

/// A building as a soldier outside it sees it.
#[derive(Clone, Copy, Debug)]
pub struct Building {
    /// How far its centre stands, in meters.
    pub distance_m: i64,
    /// Whether a living enemy is inside.
    pub enemy_inside: bool,
    /// Whether a flag that the soldier's side does not hold is inside.
    pub open_flag_inside: bool,
}

/// Whether a soldier clears building `b` with grenades: it is within
/// `BREACH_APPROACH_M` and holds an enemy or a flag to take.
pub open spec fn spec_worth_clearing(b: Building) -> bool {
    b.distance_m <= BREACH_APPROACH_M && (b.enemy_inside || b.open_flag_inside)
}

/// The first of `buildings` that a soldier seeking a breach clears; none
/// when he does not seek one (see `doctrine::seeks_breach`) or no building
/// is worth it.
pub fn breach_target(seeking: bool, buildings: &Vec<Building>) -> (res: Option<usize>)
    ensures
        match res {
            Some(i) => seeking && i < buildings@.len() && spec_worth_clearing(buildings@[i as int])
                && forall|j: int| 0 <= j < i ==> !spec_worth_clearing(#[trigger] buildings@[j]),
            None => !seeking || forall|j: int|
                0 <= j < buildings@.len() ==> !spec_worth_clearing(#[trigger] buildings@[j]),
        },
{
    if !seeking {
        return None;
    }
    let mut i: usize = 0;
    while i < buildings.len()
        invariant
            seeking,
            i <= buildings@.len(),
            forall|j: int| 0 <= j < i ==> !spec_worth_clearing(#[trigger] buildings@[j]),
        decreases buildings@.len() - i,
    {
        let b = buildings[i];
        if b.distance_m <= BREACH_APPROACH_M && (b.enemy_inside || b.open_flag_inside) {
            return Some(i);
        }
        i = i + 1;
    }
    None
}

/// Whether a soldier can stand on a tile of kind `t`: not a brick wall, a
/// trunk or deep water.
pub open spec fn spec_walkable(t: TileType) -> bool {
    t != TileType::BrickWall && t != TileType::Trunk && t != TileType::DeepWater
}

/// Whether a tile of kind `t` is grass.
pub open spec fn spec_grass(t: TileType) -> bool {
    t == TileType::ShortGrass || t == TileType::MiddleGrass || t == TileType::HighGrass
}

/// Whether a soldier can stand on a tile of kind `t`.
pub fn walkable(t: TileType) -> (res: bool)
    ensures
        res == spec_walkable(t),
{
    match t {
        TileType::BrickWall | TileType::Trunk | TileType::DeepWater => false,
        _ => true,
    }
}

/// Whether a tile of kind `t` is grass.
pub fn grass(t: TileType) -> (res: bool)
    ensures
        res == spec_grass(t),
{
    match t {
        TileType::ShortGrass | TileType::MiddleGrass | TileType::HighGrass => true,
        _ => false,
    }
}

/// Whether a soldier stacks up on a tile of kind `t` outside a building
/// whose four neighbours (on the map, or `None` beyond it) are
/// `neighbours`: he can stand on it and it touches a brick wall.
pub open spec fn spec_stacking_tile(t: TileType, neighbours: Seq<Option<TileType>>) -> bool {
    spec_walkable(t) && exists|i: int|
        0 <= i < neighbours.len() && #[trigger] neighbours[i] == Some(TileType::BrickWall)
}

/// Whether a soldier stacks up on a tile; see `spec_stacking_tile`.
pub fn stacking_tile(t: TileType, neighbours: &Vec<Option<TileType>>) -> (res: bool)
    ensures
        res == spec_stacking_tile(t, neighbours@),
{
    if !walkable(t) {
        return false;
    }
    let mut i: usize = 0;
    while i < neighbours.len()
        invariant
            spec_walkable(t),
            i <= neighbours@.len(),
            forall|j: int| 0 <= j < i ==> #[trigger] neighbours@[j] != Some(TileType::BrickWall),
        decreases neighbours@.len() - i,
    {
        if let Some(n) = neighbours[i] {
            if n == TileType::BrickWall {
                assert(neighbours@[i as int] == Some(TileType::BrickWall));
                return true;
            }
        }
        i = i + 1;
    }
    false
}

/// Whether a stacking tile of kind `t` also shelters: it is not grass.
/// Such tiles are preferred; the nearest plain stacking tile serves when
/// none is left.
pub fn sheltered_stacking_tile(t: TileType, neighbours: &Vec<Option<TileType>>) -> (res: bool)
    ensures
        res == (spec_stacking_tile(t, neighbours@) && !spec_grass(t)),
{
    stacking_tile(t, neighbours) && !grass(t)
}

/// The step of going into a building that a soldier with a move order
/// into it has reached.
#[derive(Clone, Copy, Debug, PartialEq, Eq, Structural)]
pub enum EntryStep {
    /// He sneaks to the stacking tile, then stops to clear.
    Approach,
    /// He holds at the wall while his grenade is on its way.
    Clear,
    /// He rushes in.
    Storm,
}

/// The step of going in: a soldier still away from the stacking tile and
/// outside approaches; at the wall, he holds while he throws; once the
/// throw is over, or once inside, he storms.
pub open spec fn spec_entry_step(away_from_wall: bool, inside: bool, throwing: bool) -> EntryStep {
    if away_from_wall && !inside {
        EntryStep::Approach
    } else if throwing && !inside {
        EntryStep::Clear
    } else {
        EntryStep::Storm
    }
}

/// The step of going in; see `spec_entry_step`.
pub fn entry_step(away_from_wall: bool, inside: bool, throwing: bool) -> (res: EntryStep)
    ensures
        res == spec_entry_step(away_from_wall, inside, throwing),
{
    if away_from_wall && !inside {
        EntryStep::Approach
    } else if throwing && !inside {
        EntryStep::Clear
    } else {
        EntryStep::Storm
    }
}

/// A soldier inside a building never goes back out to its walls: he
/// storms on.
pub proof fn lemma_inside_storms(away_from_wall: bool, throwing: bool)
    ensures
        spec_entry_step(away_from_wall, true, throwing) == EntryStep::Storm,
{
}

} // verus!
