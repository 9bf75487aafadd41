//! Whether a squad that engages an enemy squad has the upper hand: each
//! side's score weighs its firepower by the cover and posture of its
//! leader, less the leader's stress, plus the courage friends nearby give.
//! Scores are counted in hundredths.

use vstd::prelude::*;
use crate::doctrine::{spec_holds_position, OrderKind};
use crate::terrain::{spec_coverage, Posture, TileType};

verus! {

/// Soldiers of a squad that count for its firepower, at most.
pub const MAX_FIREPOWER: u64 = 8;

/// The score a defending or hiding leader adds, in hundredths per
/// soldier.
pub const POSTURE_BONUS: u64 = 150;

/// The courage each friend within thirty meters gives, in hundredths.
pub const ALLY_COURAGE: u64 = 50;

/// The most courage friends give, in hundredths.
pub const MAX_COURAGE: u64 = 500;

/// How near, in meters, friends must be to give courage.
pub const COURAGE_RANGE_M: i64 = 30;

/// The score of a squad, in hundredths: its firepower (its living
/// members, at most `MAX_FIREPOWER`) times one plus the cover of its
/// leader's ground and the posture bonus, less the leader's stress, plus
/// the courage of its leader's friends nearby.
pub open spec fn spec_score(
    alive_members: nat,
    cover_percent: nat,
    holding: bool,
    stress: nat,
    allies_nearby: nat,
) -> int {
    let firepower = if alive_members < MAX_FIREPOWER { alive_members } else { MAX_FIREPOWER as nat };
    let posture = if holding { POSTURE_BONUS as nat } else { 0nat };
    let courage: int = if ALLY_COURAGE * allies_nearby < MAX_COURAGE {
        ALLY_COURAGE * allies_nearby
    } else {
        MAX_COURAGE as int
    };
    firepower * (100 + cover_percent + posture) - stress + courage
}

/// The cover, in percent, that a tile gives a soldier lying on it; none
/// where the tile gives none.
pub open spec fn spec_ground_cover(tile: Option<TileType>) -> nat {
    match tile {
        Some(t) => match spec_coverage(t, Posture::Flat) {
            Some(c) => c.0 as nat,
            None => 0,
        },
        None => 0,
    }
}

/// The cover of the ground a leader lies on.
pub fn ground_cover(tile: Option<TileType>) -> (res: u8)
    ensures
        res == spec_ground_cover(tile),
{
    match tile {
        Some(t) => match t.coverage(&Posture::Flat) {
            Some(c) => c.0,
            None => 0,
        },
        None => 0,
    }
}

/// The score of a squad with `alive_members` living members whose leader
/// lies on ground giving `cover_percent` cover, is under `order`, feels
/// `stress` and has `allies_nearby` friends within `COURAGE_RANGE_M`.
pub fn squad_score(
    alive_members: usize,
    cover_percent: u8,
    order: OrderKind,
    stress: u32,
    allies_nearby: usize,
) -> (res: i64)
    ensures
        res == spec_score(
            alive_members as nat,
            cover_percent as nat,
            spec_holds_position(order),
            stress as nat,
            allies_nearby as nat,
        ),
{
    let firepower: u64 = if (alive_members as u64) < MAX_FIREPOWER {
        alive_members as u64
    } else {
        MAX_FIREPOWER
    };
    let holding = crate::doctrine::holds_position(order);
    let posture: u64 = if holding {
        POSTURE_BONUS
    } else {
        0
    };
    let courage: u64 = if (allies_nearby as u64) < MAX_COURAGE / ALLY_COURAGE {
        ALLY_COURAGE * (allies_nearby as u64)
    } else {
        MAX_COURAGE
    };
    let weight: u64 = 100 + cover_percent as u64 + posture;
    assert(firepower * weight <= 8 * 505) by (nonlinear_arith)
        requires
            firepower <= 8,
            weight <= 505,
    ;
    let base: i64 = (firepower * weight) as i64;
    base - stress as i64 + courage as i64
}

/// Whether a squad breaks off its engagement: it scores less than the
/// squad it engages, it is its company's scout, and no fire of its
/// company's main body covers it.
pub fn breaks_off(my_score: i64, enemy_score: i64, is_scout: bool, covered: bool) -> (res: bool)
    ensures
        res == (my_score < enemy_score && is_scout && !covered),
{
    my_score < enemy_score && is_scout && !covered
}

/// Frames a squad that breaks off without a way out stays off the map.
pub const OFF_MAP_FRAMES: u64 = 1200;

/// The frame at which a squad that left the map at `frame` comes back.
pub fn off_map_return(frame: u64) -> (res: u64)
    requires
        frame + OFF_MAP_FRAMES <= u64::MAX,
    ensures
        res == frame + OFF_MAP_FRAMES,
{
    frame + OFF_MAP_FRAMES
}

/// More cover, a held position, less stress, more friends nearby and
/// more living members never lower a squad's score.
pub proof fn lemma_score_monotone(
    alive_members: nat,
    cover_percent: nat,
    holding: bool,
    stress: nat,
    allies_nearby: nat,
    more_alive: nat,
    more_cover: nat,
    less_stress: nat,
    more_allies: nat,
)
    requires
        alive_members <= more_alive,
        cover_percent <= more_cover,
        less_stress <= stress,
        allies_nearby <= more_allies,
    ensures
        spec_score(alive_members, cover_percent, holding, stress, allies_nearby) <= spec_score(
            alive_members,
            cover_percent,
            true,
            stress,
            allies_nearby,
        ),
        spec_score(alive_members, cover_percent, holding, stress, allies_nearby) <= spec_score(
            more_alive,
            more_cover,
            holding,
            less_stress,
            more_allies,
        ),
{
    let f1 = if alive_members < MAX_FIREPOWER { alive_members } else { MAX_FIREPOWER as nat };
    let f2 = if more_alive < MAX_FIREPOWER { more_alive } else { MAX_FIREPOWER as nat };
    let p = if holding { POSTURE_BONUS as nat } else { 0nat };
    assert(f1 * (100 + cover_percent + p) <= f1 * (100 + cover_percent + POSTURE_BONUS)) by (
    nonlinear_arith)
        requires
            p <= POSTURE_BONUS,
    ;
    assert(f1 * (100 + cover_percent + p) <= f2 * (100 + more_cover + p)) by (nonlinear_arith)
        requires
            f1 <= f2,
            cover_percent <= more_cover,
    ;
}

} // verus!
