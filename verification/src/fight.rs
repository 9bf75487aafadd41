//! Picking the enemy soldier to fire at: among the enemies that friends
//! nearby can see, those the soldier may fire at, and a random one of the
//! group that stands nearest the first of them.

use vstd::prelude::*;
use rand::seq::SliceRandom;

verus! {

/// How far, in meters, a soldier fires at an enemy.
pub const ENGAGE_RANGE_M: i64 = 60;

/// An enemy soldier that friends near a soldier can see, as that soldier
/// weighs him.
#[derive(Clone, Copy, Debug)]
pub struct Sighting {
    /// The enemy soldier.
    pub soldier: usize,
    /// His squad.
    pub squad: usize,
    /// Whether he can be designated as a target (alive and conscious).
    pub targetable: bool,
    /// How far he stands, in meters.
    pub distance_m: i64,
    /// Whether he stands within the reach of a hiding soldier's fire.
    pub within_hide_reach: bool,
    /// Whether the soldier himself sees him.
    pub in_sight: bool,
}

/// Whether the soldier may fire at `s`: he can be a target, belongs to
/// the squad engaged (when one is), stands within reach when the soldier
/// hides, within `ENGAGE_RANGE_M`, and in the soldier's own sight.
pub open spec fn spec_eligible(s: Sighting, squad: Option<usize>, hiding: bool) -> bool {
    &&& s.targetable
    &&& (squad matches Some(q) ==> s.squad == q)
    &&& (hiding ==> s.within_hide_reach)
    &&& s.distance_m <= ENGAGE_RANGE_M
    &&& s.in_sight
}

/// The enemies the soldier may fire at, in the order they were seen.
pub fn eligible_opponents(sightings: &Vec<Sighting>, squad: Option<usize>, hiding: bool) -> (res:
    Vec<Sighting>)
    ensures
        res@ == sightings@.filter(|s: Sighting| spec_eligible(s, squad, hiding)),
{
    let ghost pred = |s: Sighting| spec_eligible(s, squad, hiding);
    let mut res: Vec<Sighting> = Vec::new();
    let mut i: usize = 0;
    while i < sightings.len()
        invariant
            i <= sightings@.len(),
            pred == (|s: Sighting| spec_eligible(s, squad, hiding)),
            res@ == sightings@.take(i as int).filter(pred),
        decreases sightings@.len() - i,
    {
        let s = sightings[i];
        proof {
            assert(sightings@.take(i + 1) =~= sightings@.take(i as int).push(s));
            sightings@.take(i as int).lemma_filter_push(s, pred);
        }
        let on_squad = match squad {
            Some(q) => s.squad == q,
            None => true,
        };
        if s.targetable && on_squad && (!hiding || s.within_hide_reach) && s.distance_m
            <= ENGAGE_RANGE_M && s.in_sight {
            res.push(s);
        }
        i = i + 1;
    }
    assert(sightings@.take(sightings@.len() as int) =~= sightings@);
    res
}

/// `SliceRandom::choose` with the thread-local generator: one element of
/// `items` drawn at random, or `None` when `items` is empty. Which element
/// comes is left open.
#[verifier::external_body]
fn choose_one(items: &Vec<usize>) -> (res: Option<usize>)
    ensures
        items@.len() == 0 <==> res is None,
        res matches Some(x) ==> items@.contains(x),
{
    items.choose(&mut rand::thread_rng()).copied()
}

/// Whether `res` is what a pick among the enemies `opponents` that stand
/// near the first of them (`near_first` tells which) may give: one of
/// them, or `None` when none stands near.
pub open spec fn picked_from_nearest(opponents: Seq<usize>, near_first: Seq<bool>, res: Option<usize>) -> bool {
    match res {
        Some(x) => exists|i: int| 0 <= i < opponents.len() && #[trigger] near_first[i] && opponents[i] == x,
        None => forall|i: int| 0 <= i < near_first.len() ==> !#[trigger] near_first[i],
    }
}

/// How a soldier picks among the enemies he may fire at.
#[derive(Clone, Copy, Debug, PartialEq, Eq, Structural)]
pub enum ChooseMethod {
    /// A random one of those standing near the first of them.
    RandomFromNearest,
}

impl ChooseMethod {
    /// The enemy picked among `opponents` (with `near_first` telling which
    /// stand near the first of them) by this method.
    pub fn pick(&self, opponents: &Vec<usize>, near_first: &Vec<bool>) -> (res: Option<usize>)
        requires
            opponents@.len() == near_first@.len(),
        ensures
            picked_from_nearest(opponents@, near_first@, res),
    {
        match self {
            ChooseMethod::RandomFromNearest => self.choose_random_from_nearest(opponents, near_first),
        }
    }

    /// One of the enemies `opponents` that stand near the first of them,
    /// drawn at random; `None` when none does.
    pub fn choose_random_from_nearest(&self, opponents: &Vec<usize>, near_first: &Vec<bool>) -> (res:
        Option<usize>)
        requires
            opponents@.len() == near_first@.len(),
        ensures
            picked_from_nearest(opponents@, near_first@, res),
    {
        let mut near: Vec<usize> = Vec::new();
        let ghost mut from: Seq<int> = Seq::empty();
        let mut i: usize = 0;
        while i < opponents.len()
            invariant
                i <= opponents@.len() == near_first@.len(),
                from.len() == near@.len(),
                forall|k: int|
                    0 <= k < near@.len() ==> 0 <= #[trigger] from[k] < i && near_first@[from[k]]
                        && opponents@[from[k]] == near@[k],
                near@.len() == 0 ==> forall|j: int| 0 <= j < i ==> !#[trigger] near_first@[j],
            decreases opponents@.len() - i,
        {
            if near_first[i] {
                near.push(opponents[i]);
                proof {
                    from = from.push(i as int);
                }
            }
            i = i + 1;
        }
        let res = choose_one(&near);
        proof {
            if let Some(x) = res {
                let k = choose|k: int| 0 <= k < near@.len() && near@[k] == x;
                assert(near_first@[from[k]] && opponents@[from[k]] == x);
            }
        }
        res
    }
}

} // verus!
