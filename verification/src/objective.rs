//! How the leader of an advancing squad weighs the flags his side does
//! not hold: which flags he considers, how threatened each is, and which
//! he falls back on when every flag looks too costly.

use vstd::prelude::*;

verus! {

/// How near a flag, in meters, soldiers and enemy fire count as being at
/// it.
pub const FLAG_WATCH_RANGE_M: i64 = 40;

/// The threat an enemy near a flag on open ground adds.
pub const OPEN_FLAG_THREAT: u64 = 500;

/// The threat an enemy near a flag under cover adds.
pub const COVERED_FLAG_THREAT: u64 = 100;

/// The threat enemy fire remembered near a flag adds.
pub const FIRE_NEAR_FLAG_THREAT: u64 = 2000;

/// Beyond this distance, in meters, a flag that friends already hold
/// their own at is left to them.
pub const LEFT_TO_FRIENDS_M: i64 = 60;

/// Beyond this distance, in meters, the main body does not go for a flag.
pub const MAIN_BODY_REACH_M: i64 = 200;

/// How many of the first `n` distances are within `FLAG_WATCH_RANGE_M`.
pub open spec fn count_watching(ds: Seq<i64>, n: int) -> nat
    decreases n,
{
    if n <= 0 {
        0
    } else {
        count_watching(ds, n - 1) + if ds[n - 1] <= FLAG_WATCH_RANGE_M {
            1nat
        } else {
            0nat
        }
    }
}

/// The threat one enemy near a flag adds: more on open ground than under
/// cover, none when the flag stands on no tile.
pub open spec fn enemy_threat(tile_open: Option<bool>) -> nat {
    match tile_open {
        Some(true) => OPEN_FLAG_THREAT as nat,
        Some(false) => COVERED_FLAG_THREAT as nat,
        None => 0,
    }
}

/// How threatened a flag is, with living enemies at `enemy_m` meters of
/// it and enemy fire remembered at `fire_m` meters of it: each enemy
/// within `FLAG_WATCH_RANGE_M` adds `enemy_threat`, each place of fire
/// within that range adds `FIRE_NEAR_FLAG_THREAT`.
pub open spec fn spec_flag_risk(enemy_m: Seq<i64>, tile_open: Option<bool>, fire_m: Seq<i64>) -> nat {
    count_watching(enemy_m, enemy_m.len() as int) * enemy_threat(tile_open) + count_watching(
        fire_m,
        fire_m.len() as int,
    ) * FIRE_NEAR_FLAG_THREAT as nat
}

/// How many of `ds` are within `FLAG_WATCH_RANGE_M`.
fn watching(ds: &Vec<i64>) -> (res: u64)
    requires
        ds@.len() <= u32::MAX,
    ensures
        res == count_watching(ds@, ds@.len() as int),
        res <= ds@.len(),
{
    let mut count: u64 = 0;
    let mut i: usize = 0;
    while i < ds.len()
        invariant
            i <= ds@.len() <= u32::MAX,
            count == count_watching(ds@, i as int),
            count <= i,
        decreases ds@.len() - i,
    {
        if ds[i] <= FLAG_WATCH_RANGE_M {
            count = count + 1;
        }
        i = i + 1;
    }
    count
}

/// How threatened a flag is; see `spec_flag_risk`.
pub fn flag_risk(enemy_m: &Vec<i64>, tile_open: Option<bool>, fire_m: &Vec<i64>) -> (res: u64)
    requires
        enemy_m@.len() <= u32::MAX,
        fire_m@.len() <= u32::MAX,
    ensures
        res == spec_flag_risk(enemy_m@, tile_open, fire_m@),
{
    let enemies = watching(enemy_m);
    let fires = watching(fire_m);
    let per_enemy: u64 = match tile_open {
        Some(true) => OPEN_FLAG_THREAT,
        Some(false) => COVERED_FLAG_THREAT,
        None => 0,
    };
    assert(enemies * per_enemy <= u32::MAX * 500) by (nonlinear_arith)
        requires
            enemies <= u32::MAX,
            per_enemy <= 500,
    ;
    assert(fires * FIRE_NEAR_FLAG_THREAT <= u32::MAX * 2000) by (nonlinear_arith)
        requires
            fires <= u32::MAX,
    ;
    enemies * per_enemy + fires * FIRE_NEAR_FLAG_THREAT
}

/// Whether the leader weighs a flag `dist_m` meters away, with `allies`
/// friends and `enemies` enemies near it: not when it is beyond
/// `LEFT_TO_FRIENDS_M` and friends there are at least as many as enemies,
/// and, for the main body, not beyond `MAIN_BODY_REACH_M`.
pub open spec fn spec_flag_considered(dist_m: i64, allies: nat, enemies: nat, is_scout: bool) -> bool {
    !(dist_m > LEFT_TO_FRIENDS_M && allies > 0 && allies >= enemies) && !(dist_m
        > MAIN_BODY_REACH_M && !is_scout)
}

/// Whether the leader weighs a flag; see `spec_flag_considered`.
pub fn flag_considered(dist_m: i64, allies: usize, enemies: usize, is_scout: bool) -> (res: bool)
    ensures
        res == spec_flag_considered(dist_m, allies as nat, enemies as nat, is_scout),
{
    !(dist_m > LEFT_TO_FRIENDS_M && allies > 0 && allies >= enemies) && !(dist_m
        > MAIN_BODY_REACH_M && !is_scout)
}

/// Whether `i` is the first of the weighed flags with the least threat,
/// the threats of the flags being `risks` (`None` for a flag not
/// weighed).
pub open spec fn is_weakest(risks: Seq<Option<u64>>, i: int) -> bool {
    &&& 0 <= i < risks.len()
    &&& risks[i] is Some
    &&& forall|j: int|
        0 <= j < i ==> (#[trigger] risks[j] matches Some(r) ==> r > risks[i]->0)
    &&& forall|j: int|
        i < j < risks.len() ==> (#[trigger] risks[j] matches Some(r) ==> r >= risks[i]->0)
}

/// The first of the weighed flags with the least threat; `None` when no
/// flag is weighed.
pub fn weakest_flag(risks: &Vec<Option<u64>>) -> (res: Option<usize>)
    ensures
        match res {
            Some(i) => is_weakest(risks@, i as int),
            None => forall|j: int| 0 <= j < risks@.len() ==> #[trigger] risks@[j] is None,
        },
{
    let mut best: Option<usize> = None;
    let mut i: usize = 0;
    while i < risks.len()
        invariant
            i <= risks@.len(),
            match best {
                Some(b) => b < i && risks@[b as int] is Some && (forall|j: int|
                    0 <= j < b ==> (#[trigger] risks@[j] matches Some(r) ==> r
                        > risks@[b as int]->0)) && (forall|j: int|
                    b < j < i ==> (#[trigger] risks@[j] matches Some(r) ==> r
                        >= risks@[b as int]->0)),
                None => forall|j: int| 0 <= j < i ==> #[trigger] risks@[j] is None,
            },
        decreases risks@.len() - i,
    {
        if let Some(r) = risks[i] {
            match best {
                Some(b) => {
                    let rb = risks[b].unwrap();
                    if r < rb {
                        best = Some(i);
                    }
                },
                None => {
                    best = Some(i);
                },
            }
        }
        i = i + 1;
    }
    best
}

/// The flag the leader goes for: the one of best priority (`best`),
/// except that the main body falls back on the least threatened flag
/// (`weakest`) when even the best priority is below zero.
pub open spec fn spec_objective(
    best: Option<usize>,
    best_below_zero: bool,
    weakest: Option<usize>,
    is_scout: bool,
) -> Option<usize> {
    if best_below_zero && weakest is Some && !is_scout {
        weakest
    } else {
        best
    }
}

/// The flag the leader goes for; see `spec_objective`.
pub fn objective(
    best: Option<usize>,
    best_below_zero: bool,
    weakest: Option<usize>,
    is_scout: bool,
) -> (res: Option<usize>)
    ensures
        res == spec_objective(best, best_below_zero, weakest, is_scout),
{
    if best_below_zero && weakest.is_some() && !is_scout {
        weakest
    } else {
        best
    }
}

/// A scout keeps to the flag of best priority, however costly.
pub proof fn lemma_scout_keeps_best(best: Option<usize>, best_below_zero: bool, weakest: Option<usize>)
    ensures
        spec_objective(best, best_below_zero, weakest, true) == best,
{
}

/// How near a flag, in meters, an enemy must stand to be worth a grenade.
pub const GUARD_RANGE_M: i64 = 15;

/// Whether `i` is the first of the flags not held, at `dists_m` meters
/// (`None` for a flag held), that is nearest, nearer than `i64::MAX`.
pub open spec fn is_nearest(dists_m: Seq<Option<i64>>, i: int) -> bool {
    &&& 0 <= i < dists_m.len()
    &&& dists_m[i] matches Some(d) && d < i64::MAX
    &&& forall|j: int|
        0 <= j < i ==> (#[trigger] dists_m[j] matches Some(e) ==> e > dists_m[i]->0)
    &&& forall|j: int|
        i < j < dists_m.len() ==> (#[trigger] dists_m[j] matches Some(e) ==> e >= dists_m[i]->0)
}

/// The first of the nearest flags not held; `None` when every flag is
/// held (or lies `i64::MAX` meters away).
pub fn nearest_flag(dists_m: &Vec<Option<i64>>) -> (res: Option<usize>)
    ensures
        match res {
            Some(i) => is_nearest(dists_m@, i as int),
            None => forall|j: int|
                0 <= j < dists_m@.len() ==> (#[trigger] dists_m@[j] matches Some(e) ==> e
                    == i64::MAX),
        },
{
    let mut best: Option<usize> = None;
    let mut min: i64 = i64::MAX;
    let mut i: usize = 0;
    while i < dists_m.len()
        invariant
            i <= dists_m@.len(),
            match best {
                Some(b) => b < i && dists_m@[b as int] == Some(min) && min < i64::MAX,
                None => min == i64::MAX,
            },
            forall|j: int| 0 <= j < i ==> (#[trigger] dists_m@[j] matches Some(e) ==> e >= min),
            best matches Some(b) ==> forall|j: int|
                0 <= j < b ==> (#[trigger] dists_m@[j] matches Some(e) ==> e > min),
        decreases dists_m@.len() - i,
    {
        if let Some(d) = dists_m[i] {
            if d < min {
                min = d;
                best = Some(i);
            }
        }
        i = i + 1;
    }
    best
}

/// Whether some living enemy, at `enemy_m` meters of a flag, guards it:
/// one stands within `GUARD_RANGE_M`.
pub fn guarded(enemy_m: &Vec<i64>) -> (res: bool)
    ensures
        res == exists|i: int| 0 <= i < enemy_m@.len() && #[trigger] enemy_m@[i] <= GUARD_RANGE_M,
{
    let mut i: usize = 0;
    while i < enemy_m.len()
        invariant
            i <= enemy_m@.len(),
            forall|j: int| 0 <= j < i ==> #[trigger] enemy_m@[j] > GUARD_RANGE_M,
        decreases enemy_m@.len() - i,
    {
        if enemy_m[i] <= GUARD_RANGE_M {
            return true;
        }
        i = i + 1;
    }
    false
}

} // verus!
