//! Movement modes, the eight grid directions, turning costs and the cost
//! shaping that the path finders apply to each candidate step.

use vstd::prelude::*;
use crate::terrain::TileType;

verus! {

/// The size of a vehicle, in grid tiles.
#[derive(Clone, Copy, Debug, PartialEq, Eq, Structural)]
pub struct VehicleSize(pub i32, pub i32);

/// How a path is to be travelled: on foot, or driving a vehicle of a size.
#[derive(Clone, Copy, Debug, PartialEq, Eq, Structural)]
pub enum PathMode {
    Walk,
    Drive(VehicleSize),
}

impl PathMode {
    /// Whether paths of this mode must account for vehicles.
    pub fn include_vehicles(&self) -> (res: bool)
        ensures
            res == (*self is Drive),
    {
        match self {
            PathMode::Walk => false,
            PathMode::Drive(_) => true,
        }
    }
}

pub const COST_AHEAD: i32 = 0;
pub const COST_DIAGONAL: i32 = 10;
pub const COST_CORNER: i32 = 20;
pub const COST_BACK_CORNER: i32 = 30;
pub const COST_BACK: i32 = 50;

/// An orientation, in hundredths of a degree, clockwise from north.
#[derive(Clone, Copy, Debug, PartialEq, Eq, Structural)]
pub struct Angle(pub i64);

/// A tile position on the map grid.
#[derive(Clone, Copy, Debug, PartialEq, Eq, Structural)]
pub struct GridPoint {
    pub x: i32,
    pub y: i32,
}

/// The eight directions of a grid step, clockwise from north.
#[derive(Clone, Copy, Debug, PartialEq, Eq, Hash, Structural)]
pub enum Direction {
    North,
    NorthEst,
    Est,
    SouthEst,
    South,
    SouthWest,
    West,
    NorthWest,
}

/// Position of a direction in the clockwise order that starts at north.
pub open spec fn direction_index(d: Direction) -> int {
    match d {
        Direction::North => 0,
        Direction::NorthEst => 1,
        Direction::Est => 2,
        Direction::SouthEst => 3,
        Direction::South => 4,
        Direction::SouthWest => 5,
        Direction::West => 6,
        Direction::NorthWest => 7,
    }
}

/// The direction at a position of the clockwise order (taken modulo 8).
pub open spec fn direction_at(i: int) -> Direction {
    let k = i % 8;
    if k == 0 {
        Direction::North
    } else if k == 1 {
        Direction::NorthEst
    } else if k == 2 {
        Direction::Est
    } else if k == 3 {
        Direction::SouthEst
    } else if k == 4 {
        Direction::South
    } else if k == 5 {
        Direction::SouthWest
    } else if k == 6 {
        Direction::West
    } else {
        Direction::NorthWest
    }
}

/// The direction whose sector holds an angle given in hundredths of a degree.
/// Sectors are 45 degrees wide and centred on each direction; an angle
/// outside `(22.5, 337.5)` degrees, negative ones included, counts as north.
pub open spec fn spec_from_angle(a: int) -> Direction {
    if a >= 33750 || a <= 2250 {
        Direction::North
    } else if a <= 6750 {
        Direction::NorthEst
    } else if a <= 11250 {
        Direction::Est
    } else if a <= 15750 {
        Direction::SouthEst
    } else if a <= 20250 {
        Direction::South
    } else if a <= 24750 {
        Direction::SouthWest
    } else if a <= 29250 {
        Direction::West
    } else {
        Direction::NorthWest
    }
}

/// Grid offset `(dx, dy)` of one step in a direction (y grows southward).
pub open spec fn spec_modifier(d: Direction) -> (i32, i32) {
    match d {
        Direction::NorthWest => (-1i32, -1i32),
        Direction::North => (0i32, -1i32),
        Direction::NorthEst => (1i32, -1i32),
        Direction::Est => (1i32, 0i32),
        Direction::SouthEst => (1i32, 1i32),
        Direction::South => (0i32, 1i32),
        Direction::SouthWest => (-1i32, 1i32),
        Direction::West => (-1i32, 0i32),
    }
}

/// Number of eighth turns between two directions, the shorter way round.
pub open spec fn turn_steps(a: Direction, b: Direction) -> int {
    let d = if direction_index(a) >= direction_index(b) {
        direction_index(a) - direction_index(b)
    } else {
        direction_index(b) - direction_index(a)
    };
    if d <= 4 { d } else { 8 - d }
}

/// Cost of turning by a number of eighth turns.
pub open spec fn turn_cost(steps: int) -> i32 {
    if steps == 0 {
        COST_AHEAD
    } else if steps == 1 {
        COST_DIAGONAL
    } else if steps == 2 {
        COST_CORNER
    } else if steps == 3 {
        COST_BACK_CORNER
    } else {
        COST_BACK
    }
}

impl Direction {
    /// The direction of the sector that holds `angle`.
    pub fn from_angle(angle: &Angle) -> (res: Direction)
        ensures
            res == spec_from_angle(angle.0 as int),
    {
        let degrees = angle.0;
        if degrees >= 33750 || degrees <= 2250 {
            Direction::North
        } else if degrees > 2250 && degrees <= 6750 {
            Direction::NorthEst
        } else if degrees > 6750 && degrees <= 11250 {
            Direction::Est
        } else if degrees > 11250 && degrees <= 15750 {
            Direction::SouthEst
        } else if degrees > 15750 && degrees <= 20250 {
            Direction::South
        } else if degrees > 20250 && degrees <= 24750 {
            Direction::SouthWest
        } else if degrees > 24750 && degrees <= 29250 {
            Direction::West
        } else {
            Direction::NorthWest
        }
    }

    /// The grid offset of one step in this direction.
    pub fn modifier(&self) -> (res: (i32, i32))
        ensures
            res == spec_modifier(*self),
    {
        match self {
            Direction::NorthWest => (-1, -1),
            Direction::North => (0, -1),
            Direction::NorthEst => (1, -1),
            Direction::Est => (1, 0),
            Direction::SouthEst => (1, 1),
            Direction::South => (0, 1),
            Direction::SouthWest => (-1, 1),
            Direction::West => (-1, 0),
        }
    }

    /// The cost of turning from this direction to `direction`.
    pub fn angle_cost(&self, direction: &Direction) -> (res: i32)
        ensures
            res == turn_cost(turn_steps(*self, *direction)),
    {
        match self {
            Direction::North => match direction {
                Direction::North => COST_AHEAD,
                Direction::NorthEst => COST_DIAGONAL,
                Direction::Est => COST_CORNER,
                Direction::SouthEst => COST_BACK_CORNER,
                Direction::South => COST_BACK,
                Direction::SouthWest => COST_BACK_CORNER,
                Direction::West => COST_CORNER,
                Direction::NorthWest => COST_DIAGONAL,
            },
            Direction::NorthEst => match direction {
                Direction::North => COST_DIAGONAL,
                Direction::NorthEst => COST_AHEAD,
                Direction::Est => COST_DIAGONAL,
                Direction::SouthEst => COST_CORNER,
                Direction::South => COST_BACK_CORNER,
                Direction::SouthWest => COST_BACK,
                Direction::West => COST_BACK_CORNER,
                Direction::NorthWest => COST_CORNER,
            },
            Direction::Est => match direction {
                Direction::North => COST_CORNER,
                Direction::NorthEst => COST_DIAGONAL,
                Direction::Est => COST_AHEAD,
                Direction::SouthEst => COST_DIAGONAL,
                Direction::South => COST_CORNER,
                Direction::SouthWest => COST_BACK_CORNER,
                Direction::West => COST_BACK,
                Direction::NorthWest => COST_BACK_CORNER,
            },
            Direction::SouthEst => match direction {
                Direction::North => COST_BACK_CORNER,
                Direction::NorthEst => COST_CORNER,
                Direction::Est => COST_DIAGONAL,
                Direction::SouthEst => COST_AHEAD,
                Direction::South => COST_DIAGONAL,
                Direction::SouthWest => COST_CORNER,
                Direction::West => COST_BACK_CORNER,
                Direction::NorthWest => COST_BACK,
            },
            Direction::South => match direction {
                Direction::North => COST_BACK,
                Direction::NorthEst => COST_BACK_CORNER,
                Direction::Est => COST_CORNER,
                Direction::SouthEst => COST_DIAGONAL,
                Direction::South => COST_AHEAD,
                Direction::SouthWest => COST_DIAGONAL,
                Direction::West => COST_CORNER,
                Direction::NorthWest => COST_BACK_CORNER,
            },
            Direction::SouthWest => match direction {
                Direction::North => COST_BACK_CORNER,
                Direction::NorthEst => COST_BACK,
                Direction::Est => COST_BACK_CORNER,
                Direction::SouthEst => COST_CORNER,
                Direction::South => COST_DIAGONAL,
                Direction::SouthWest => COST_AHEAD,
                Direction::West => COST_DIAGONAL,
                Direction::NorthWest => COST_CORNER,
            },
            Direction::West => match direction {
                Direction::North => COST_CORNER,
                Direction::NorthEst => COST_BACK_CORNER,
                Direction::Est => COST_BACK,
                Direction::SouthEst => COST_BACK_CORNER,
                Direction::South => COST_CORNER,
                Direction::SouthWest => COST_DIAGONAL,
                Direction::West => COST_AHEAD,
                Direction::NorthWest => COST_DIAGONAL,
            },
            Direction::NorthWest => match direction {
                Direction::North => COST_DIAGONAL,
                Direction::NorthEst => COST_CORNER,
                Direction::Est => COST_BACK_CORNER,
                Direction::SouthEst => COST_BACK,
                Direction::South => COST_BACK_CORNER,
                Direction::SouthWest => COST_CORNER,
                Direction::West => COST_DIAGONAL,
                Direction::NorthWest => COST_AHEAD,
            },
        }
    }
}

/// Cost taken off a step next to cover when walking or moving tactically.
pub const WALK_COVER_BONUS: i32 = 5;

/// Cost taken off a step next to cover when sneaking.
pub const STEALTH_COVER_BONUS: i32 = 40;

/// Cost added to a sneaking step across open ground.
pub const STEALTH_OPEN_GROUND_PENALTY: i32 = 500;

/// Tactical steps that cost this much or more are never taken.
pub const TACTICAL_COST_CUTOFF: i32 = 10000;

/// Tile kinds that give cover and draw paths along them.
pub open spec fn is_cover_tile(t: TileType) -> bool {
    t == TileType::BrickWall || t == TileType::Trunk || t == TileType::MiddleRock
        || t == TileType::Hedge
}

/// Tile kinds that hide a sneaking soldier.
pub open spec fn is_concealing_tile(t: TileType) -> bool {
    t == TileType::Underbrush || t == TileType::LightUnderbrush || t == TileType::Hedge
        || t == TileType::MiddleWoodLogs || t == TileType::Trunk
}

/// Open ground that a sneaking soldier avoids.
pub open spec fn is_open_ground_tile(t: TileType) -> bool {
    t == TileType::ShortGrass || t == TileType::Concrete || t == TileType::Dirt
}

/// Whether some known neighbouring tile gives cover.
pub open spec fn has_cover_neighbor(neighbors: Seq<Option<TileType>>) -> bool {
    exists|i: int| 0 <= i < neighbors.len() && (#[trigger] neighbors[i] matches Some(t)
        && is_cover_tile(t))
}

/// The bonus a step gets for having cover next to it.
pub open spec fn spec_cover_bonus(neighbors: Seq<Option<TileType>>, bonus: i32) -> int {
    if has_cover_neighbor(neighbors) { bonus as int } else { 0 }
}

/// A step cost is never below one.
pub open spec fn at_least_one(cost: int) -> int {
    if cost < 1 { 1 } else { cost }
}

/// Cost of a walking step once cover draws it.
pub open spec fn spec_walk_step_cost(cost: i32, neighbors: Seq<Option<TileType>>) -> int {
    at_least_one(cost - spec_cover_bonus(neighbors, WALK_COVER_BONUS))
}

/// Cost of a tactical step: drawn by cover and shifted by the tactical
/// weight of its tile, if that tile has one.
pub open spec fn spec_tactical_step_cost(
    cost: i32,
    neighbors: Seq<Option<TileType>>,
    extra: Option<i32>,
) -> int {
    let shifted = match extra {
        Some(e) => cost - spec_cover_bonus(neighbors, WALK_COVER_BONUS) + e,
        None => cost - spec_cover_bonus(neighbors, WALK_COVER_BONUS),
    };
    at_least_one(shifted)
}

/// Cost of a sneaking step: strongly drawn by cover, the cheapest possible
/// on concealing tiles and much dearer on open ground.
pub open spec fn spec_stealth_step_cost(
    cost: i32,
    neighbors: Seq<Option<TileType>>,
    tile: Option<TileType>,
) -> int {
    let drawn = cost - spec_cover_bonus(neighbors, STEALTH_COVER_BONUS);
    let shaped = match tile {
        Some(t) => if is_concealing_tile(t) {
            1
        } else if is_open_ground_tile(t) {
            drawn + STEALTH_OPEN_GROUND_PENALTY
        } else {
            drawn
        },
        None => drawn,
    };
    at_least_one(shaped)
}

/// The bonus that cover gives a step: `bonus` when one of the tiles next to
/// it (`None` where there is no tile) gives cover, else nothing.
pub fn near_cover_bonus(neighbors: &[Option<TileType>], bonus: i32) -> (res: i32)
    ensures
        res == spec_cover_bonus(neighbors@, bonus),
{
    let mut i: usize = 0;
    while i < neighbors.len()
        invariant
            i <= neighbors@.len(),
            forall|k: int| 0 <= k < i ==> !(#[trigger] neighbors@[k] matches Some(t)
                && is_cover_tile(t)),
        decreases neighbors@.len() - i,
    {
        if let Some(t) = neighbors[i] {
            match t {
                TileType::BrickWall | TileType::Trunk | TileType::MiddleRock | TileType::Hedge => {
                    return bonus;
                },
                _ => {},
            }
        }
        i = i + 1;
    }
    0
}

fn at_least_one_i32(cost: i32) -> (res: i32)
    ensures
        res == at_least_one(cost as int),
{
    if cost < 1 { 1 } else { cost }
}

/// The cost of a walking step of base cost `cost`, given the tiles next to
/// the step's destination.
pub fn walk_step_cost(cost: i32, neighbors: &[Option<TileType>]) -> (res: i32)
    requires
        cost >= i32::MIN + WALK_COVER_BONUS,
    ensures
        res == spec_walk_step_cost(cost, neighbors@),
{
    let bonus = near_cover_bonus(neighbors, WALK_COVER_BONUS);
    at_least_one_i32(cost - bonus)
}

/// The cost of a tactical step of base cost `cost`, given the tiles next to
/// the step's destination and the tactical weight of that destination.
pub fn tactical_step_cost(cost: i32, neighbors: &[Option<TileType>], extra: Option<i32>) -> (res: i32)
    requires
        cost >= i32::MIN + WALK_COVER_BONUS,
        extra matches Some(e) ==> i32::MIN <= cost - spec_cover_bonus(neighbors@, WALK_COVER_BONUS)
            + e <= i32::MAX,
    ensures
        res == spec_tactical_step_cost(cost, neighbors@, extra),
{
    let bonus = near_cover_bonus(neighbors, WALK_COVER_BONUS);
    let mut final_cost = cost - bonus;
    if let Some(extra_cost) = extra {
        final_cost = final_cost + extra_cost;
    }
    at_least_one_i32(final_cost)
}

/// Whether a tactical step is cheap enough to be considered at all.
pub fn keep_tactical_step(cost: i32) -> (res: bool)
    ensures
        res == (cost < TACTICAL_COST_CUTOFF),
{
    cost < TACTICAL_COST_CUTOFF
}

/// The cost of a sneaking step of base cost `cost`, given the tiles next to
/// the step's destination and the destination's own tile.
pub fn stealth_step_cost(cost: i32, neighbors: &[Option<TileType>], tile: Option<TileType>) -> (res: i32)
    requires
        cost >= i32::MIN + STEALTH_COVER_BONUS,
        tile matches Some(t) && is_open_ground_tile(t) ==> cost - spec_cover_bonus(
            neighbors@,
            STEALTH_COVER_BONUS,
        ) + STEALTH_OPEN_GROUND_PENALTY <= i32::MAX,
    ensures
        res == spec_stealth_step_cost(cost, neighbors@, tile),
{
    let bonus = near_cover_bonus(neighbors, STEALTH_COVER_BONUS);
    let mut final_cost = cost - bonus;
    if let Some(t) = tile {
        match t {
            TileType::Underbrush
            | TileType::LightUnderbrush
            | TileType::Hedge
            | TileType::MiddleWoodLogs
            | TileType::Trunk => {
                final_cost = 1;
            },
            TileType::ShortGrass | TileType::Concrete | TileType::Dirt => {
                final_cost = final_cost + STEALTH_OPEN_GROUND_PENALTY;
            },
            _ => {},
        }
    }
    at_least_one_i32(final_cost)
}

/// The grid points a sequence of `(point, direction)` nodes goes through.
pub open spec fn points_of(path: Seq<(GridPoint, Direction)>) -> Seq<GridPoint> {
    path.map_values(|n: (GridPoint, Direction)| n.0)
}

/// The points of a path found on `(point, direction)` nodes; without its
/// first node when `exclude_first`, and `None` when nothing is left then.
pub fn path_points(path: &Vec<(GridPoint, Direction)>, exclude_first: bool) -> (res: Option<
    Vec<GridPoint>,
>)
    requires
        exclude_first ==> path@.len() > 0,
    ensures
        !exclude_first ==> (res matches Some(points) && points@ == points_of(path@)),
        exclude_first && path@.len() == 1 ==> res is None,
        exclude_first && path@.len() > 1 ==> (res matches Some(points) && points@ == points_of(
            path@.skip(1),
        )),
{
    let start: usize = if exclude_first { 1 } else { 0 };
    let mut points: Vec<GridPoint> = Vec::new();
    let mut i: usize = start;
    while i < path.len()
        invariant
            start <= i <= path@.len(),
            start == (if exclude_first { 1usize } else { 0usize }),
            exclude_first ==> path@.len() > 0,
            points@.len() == i - start,
            forall|k: int| 0 <= k < points@.len() ==> #[trigger] points@[k] == path@[k + start].0,
        decreases path@.len() - i,
    {
        points.push(path[i].0);
        i = i + 1;
    }
    if exclude_first && points.len() == 0 {
        None
    } else {
        assert(!exclude_first ==> points@ =~= points_of(path@));
        assert(exclude_first ==> points@ =~= points_of(path@.skip(1)));
        Some(points)
    }
}

/// Turning costs are the same both ways: going from `a` to `b` costs what
/// going from `b` to `a` costs.
pub proof fn lemma_angle_cost_symmetric(a: Direction, b: Direction)
    ensures
        turn_cost(turn_steps(a, b)) == turn_cost(turn_steps(b, a)),
{
}

/// Keeping one's direction costs nothing, and any real turn costs something.
pub proof fn lemma_angle_cost_zero_iff_same(a: Direction, b: Direction)
    ensures
        (turn_cost(turn_steps(a, b)) == 0) <==> a == b,
{
}

/// A sharper turn never costs less: turning further costs at least as much.
pub proof fn lemma_angle_cost_grows_with_turn(a: Direction, b: Direction, c: Direction)
    requires
        turn_steps(a, b) <= turn_steps(a, c),
    ensures
        turn_cost(turn_steps(a, b)) <= turn_cost(turn_steps(a, c)),
{
}

/// Each direction is a single step to one of the eight neighbouring tiles,
/// different directions step to different tiles, and the opposite direction
/// steps back.
pub proof fn lemma_modifier_steps(a: Direction, b: Direction)
    ensures
        -1 <= spec_modifier(a).0 <= 1,
        -1 <= spec_modifier(a).1 <= 1,
        spec_modifier(a) != (0i32, 0i32),
        a != b ==> spec_modifier(a) != spec_modifier(b),
        spec_modifier(direction_at(direction_index(a) + 4)).0 == -spec_modifier(a).0,
        spec_modifier(direction_at(direction_index(a) + 4)).1 == -spec_modifier(a).1,
{
}

/// The angle at the centre of a direction's sector gives back that direction.
pub proof fn lemma_from_angle_sector_centre(d: Direction)
    ensures
        spec_from_angle(4500 * direction_index(d)) == d,
{
}

/// A sneaking soldier shuns open ground: a step onto short grass,
/// concrete or dirt costs `STEALTH_OPEN_GROUND_PENALTY` more than the same
/// step onto an unknown tile (its cost once cover draws it), and never
/// less than the same step onto any other tile; a step into underbrush,
/// hedges, wood logs or a trunk costs the least a step can cost.
pub proof fn lemma_stealth_shuns_open_ground(
    cost: i32,
    neighbors: Seq<Option<TileType>>,
    other: TileType,
)
    ensures
        spec_stealth_step_cost(cost, neighbors, Some(TileType::ShortGrass)) == at_least_one(
            cost - spec_cover_bonus(neighbors, STEALTH_COVER_BONUS) + STEALTH_OPEN_GROUND_PENALTY,
        ),
        spec_stealth_step_cost(cost, neighbors, Some(TileType::Concrete)) == at_least_one(
            cost - spec_cover_bonus(neighbors, STEALTH_COVER_BONUS) + STEALTH_OPEN_GROUND_PENALTY,
        ),
        spec_stealth_step_cost(cost, neighbors, Some(TileType::Dirt)) == at_least_one(
            cost - spec_cover_bonus(neighbors, STEALTH_COVER_BONUS) + STEALTH_OPEN_GROUND_PENALTY,
        ),
        spec_stealth_step_cost(cost, neighbors, None) == at_least_one(
            cost - spec_cover_bonus(neighbors, STEALTH_COVER_BONUS),
        ),
        spec_stealth_step_cost(cost, neighbors, Some(TileType::Dirt)) >= spec_stealth_step_cost(
            cost,
            neighbors,
            Some(other),
        ),
        spec_stealth_step_cost(cost, neighbors, Some(TileType::Underbrush)) == 1,
        spec_stealth_step_cost(cost, neighbors, Some(TileType::LightUnderbrush)) == 1,
        spec_stealth_step_cost(cost, neighbors, Some(TileType::Hedge)) == 1,
        spec_stealth_step_cost(cost, neighbors, Some(TileType::MiddleWoodLogs)) == 1,
        spec_stealth_step_cost(cost, neighbors, Some(TileType::Trunk)) == 1,
{
}

} // verus!
