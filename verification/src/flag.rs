//! Who holds the objectives of the map: how a flag changes hands with
//! the soldiers standing in its area, and what a capture sets off.

use vstd::prelude::*;
use crate::tally::Side;

verus! {

/// Who holds a flag.
#[derive(Clone, Copy, Debug, PartialEq, Eq, Structural)]
pub enum FlagOwnership {
    Nobody,
    A,
    B,
    Both,
}

/// Who holds a flag held by `o` once side A is (`a_inside`) or is not in
/// its area, and side B likewise: both sides there share it, one side
/// alone takes it, and an empty area keeps its holder.
pub open spec fn spec_next_ownership(o: FlagOwnership, a_inside: bool, b_inside: bool) -> FlagOwnership {
    if a_inside && b_inside {
        FlagOwnership::Both
    } else if a_inside {
        FlagOwnership::A
    } else if b_inside {
        FlagOwnership::B
    } else {
        o
    }
}

/// Who holds a flag after an update.
pub fn next_ownership(o: FlagOwnership, a_inside: bool, b_inside: bool) -> (res: FlagOwnership)
    ensures
        res == spec_next_ownership(o, a_inside, b_inside),
{
    match (o, a_inside, b_inside) {
        (_, true, true) => FlagOwnership::Both,
        (_, true, false) => FlagOwnership::A,
        (_, false, true) => FlagOwnership::B,
        (o, false, false) => o,
    }
}

/// Whether side `side` holds (alone or with the other side) a flag held
/// by `o`.
pub open spec fn spec_held_by(o: FlagOwnership, side: Side) -> bool {
    o == FlagOwnership::Both || (side == Side::A && o == FlagOwnership::A) || (side
        == Side::B && o == FlagOwnership::B)
}

/// Whether `side` holds a flag held by `o`; a flag it does not hold is
/// one its soldiers go for. `Side::All` holds only a shared flag.
pub fn held_by(o: FlagOwnership, side: Side) -> (res: bool)
    ensures
        res == spec_held_by(o, side),
{
    match o {
        FlagOwnership::Both => true,
        FlagOwnership::A => matches!(side, Side::A),
        FlagOwnership::B => matches!(side, Side::B),
        FlagOwnership::Nobody => false,
    }
}

/// The side that captures a flag going from `before` to `after`: a side
/// that comes to hold it alone.
pub open spec fn spec_captured_by(before: FlagOwnership, after: FlagOwnership) -> Option<Side> {
    if before == after {
        None
    } else if after == FlagOwnership::A {
        Some(Side::A)
    } else if after == FlagOwnership::B {
        Some(Side::B)
    } else {
        None
    }
}

/// The side that captures a flag, if one does.
pub fn captured_by(before: FlagOwnership, after: FlagOwnership) -> (res: Option<Side>)
    ensures
        res == spec_captured_by(before, after),
{
    if before == after {
        None
    } else {
        match after {
            FlagOwnership::A => Some(Side::A),
            FlagOwnership::B => Some(Side::B),
            _ => None,
        }
    }
}

/// How near a flag, in meters, the point of a suppressive fire must be
/// for the fire to stop when the flag is captured.
pub const CAPTURE_CEASE_FIRE_M: i64 = 30;

/// How near a flag, in meters, the soldiers of the capturing side must be
/// to fall back to their checkpoint.
pub const CAPTURE_FALL_BACK_M: i64 = 40;

/// What a capture means for one soldier of the capturing side: whether
/// it stops its suppressive fire (it was firing at a point within
/// `CAPTURE_CEASE_FIRE_M` of the flag) and whether it falls back (it is
/// within `CAPTURE_FALL_BACK_M` of the flag).
pub fn capture_reaction(suppress_target_m: Option<i64>, distance_to_flag_m: i64) -> (res: (
    bool,
    bool,
))
    ensures
        res.0 == (suppress_target_m matches Some(d) && d <= CAPTURE_CEASE_FIRE_M),
        res.1 == (distance_to_flag_m <= CAPTURE_FALL_BACK_M),
{
    let cease = match suppress_target_m {
        Some(d) => d <= CAPTURE_CEASE_FIRE_M,
        None => false,
    };
    (cease, distance_to_flag_m <= CAPTURE_FALL_BACK_M)
}

/// The holders of the flags after an update in which side A is or is not
/// in each flag's area (`a_inside`), and side B likewise, with whether any
/// holder changed.
pub fn update_ownerships(
    ownerships: &Vec<FlagOwnership>,
    a_inside: &Vec<bool>,
    b_inside: &Vec<bool>,
) -> (res: (Vec<FlagOwnership>, bool))
    requires
        a_inside@.len() == ownerships@.len(),
        b_inside@.len() == ownerships@.len(),
    ensures
        res.0@.len() == ownerships@.len(),
        forall|i: int|
            0 <= i < ownerships@.len() ==> #[trigger] res.0@[i] == spec_next_ownership(
                ownerships@[i],
                a_inside@[i],
                b_inside@[i],
            ),
        res.1 == (res.0@ != ownerships@),
{
    let mut next: Vec<FlagOwnership> = Vec::new();
    let mut changed = false;
    let mut i: usize = 0;
    while i < ownerships.len()
        invariant
            i <= ownerships@.len(),
            a_inside@.len() == ownerships@.len(),
            b_inside@.len() == ownerships@.len(),
            next@.len() == i,
            forall|j: int|
                0 <= j < i ==> #[trigger] next@[j] == spec_next_ownership(
                    ownerships@[j],
                    a_inside@[j],
                    b_inside@[j],
                ),
            changed == exists|j: int| 0 <= j < i && next@[j] != #[trigger] ownerships@[j],
        decreases ownerships@.len() - i,
    {
        let o = next_ownership(ownerships[i], a_inside[i], b_inside[i]);
        if o != ownerships[i] {
            changed = true;
        }
        next.push(o);
        i = i + 1;
    }
    proof {
        if changed {
            let j = choose|j: int| 0 <= j < ownerships@.len() && next@[j] != #[trigger] ownerships@[j];
            assert(next@[j] != ownerships@[j]);
        } else {
            assert(next@ =~= ownerships@);
        }
    }
    (next, changed)
}

/// A flag follows who stands in its area: both sides there share it, a
/// side alone there holds it, an empty area keeps its holder, and updating
/// twice with the same soldiers changes nothing more.
pub proof fn lemma_ownership_follows_presence(o: FlagOwnership, a_inside: bool, b_inside: bool)
    ensures
        a_inside && b_inside ==> spec_next_ownership(o, a_inside, b_inside) == FlagOwnership::Both,
        a_inside && !b_inside ==> spec_next_ownership(o, a_inside, b_inside) == FlagOwnership::A,
        !a_inside && b_inside ==> spec_next_ownership(o, a_inside, b_inside) == FlagOwnership::B,
        !a_inside && !b_inside ==> spec_next_ownership(o, a_inside, b_inside) == o,
        spec_next_ownership(spec_next_ownership(o, a_inside, b_inside), a_inside, b_inside)
            == spec_next_ownership(o, a_inside, b_inside),
{
}

/// A side captures a flag only by being alone in its area, and a flag
/// nobody holds is never taken by a side that is not there.
pub proof fn lemma_capture_needs_presence(o: FlagOwnership, a_inside: bool, b_inside: bool)
    ensures
        spec_captured_by(o, spec_next_ownership(o, a_inside, b_inside)) == Some(Side::A)
            ==> a_inside && !b_inside,
        spec_captured_by(o, spec_next_ownership(o, a_inside, b_inside)) == Some(Side::B)
            ==> b_inside && !a_inside,
        spec_captured_by(o, spec_next_ownership(o, a_inside, b_inside)) matches Some(s)
            ==> spec_held_by(spec_next_ownership(o, a_inside, b_inside), s),
{
}

} // verus!
