//! What the runner makes of the battle's messages besides applying them:
//! which side fired a shot, which cells it remembers as dangerous, what
//! killed a soldier, whose visibility is computed next, and what a soldier
//! does once his behaviour is over.

use vstd::prelude::*;
use crate::doctrine::OrderKind;
use crate::path::GridPoint;
use crate::pings::{ping_at, Ping, TacticalPings, DEATH_MEMORY_FRAMES, FIRE_MEMORY_FRAMES};
use crate::tally::Side;

verus! {

/// How near, in meters, a soldier must stand to where a shot came from to
/// count as its shooter.
pub const SHOOTER_RANGE_M: i64 = 2;

/// How near, in meters, a bullet must strike to have killed a soldier.
pub const BULLET_KILL_RANGE_M: i64 = 5;

/// How near, in meters, an explosion must go off to have killed a soldier.
pub const BLAST_KILL_RANGE_M: i64 = 20;

/// A soldier near where a shot came from: how far, in meters, and his side.
#[derive(Clone, Copy, Debug, PartialEq, Eq, Structural)]
pub struct Bystander {
    pub distance_m: i64,
    pub side: Side,
}

/// The side that fired a shot: that of the first soldier, in the order
/// given, within `SHOOTER_RANGE_M` of where it came from; side `B` when
/// none is.
pub open spec fn spec_shooter_side(near: Seq<Bystander>) -> Side
    decreases near.len(),
{
    if near.len() == 0 {
        Side::B
    } else if near[0].distance_m < SHOOTER_RANGE_M {
        near[0].side
    } else {
        spec_shooter_side(near.drop_first())
    }
}

/// The side that fired a shot; see `spec_shooter_side`.
pub fn shooter_side(near: &Vec<Bystander>) -> (res: Side)
    ensures
        res == spec_shooter_side(near@),
{
    let mut i: usize = 0;
    assert(near@.skip(0) =~= near@);
    while i < near.len()
        invariant
            i <= near@.len(),
            spec_shooter_side(near@) == spec_shooter_side(near@.skip(i as int)),
        decreases near@.len() - i,
    {
        assert(near@.skip(i as int).drop_first() =~= near@.skip(i + 1));
        if near[i].distance_m < SHOOTER_RANGE_M {
            return near[i].side;
        }
        i = i + 1;
    }
    assert(near@.skip(i as int) =~= Seq::<Bystander>::empty());
    Side::B
}

/// The side facing `side`.
pub open spec fn spec_opposite(side: Side) -> Side {
    match side {
        Side::A => Side::B,
        Side::B => Side::A,
        Side::All => Side::All,
    }
}

/// An event of the battle that leaves a danger to remember.
#[derive(Clone, Copy, Debug, PartialEq, Eq, Structural)]
pub enum Danger {
    /// A soldier of side `side` fell on `cell`.
    Death { cell: GridPoint, side: Side },
    /// Side `shooter` fired a bullet from `origin` that struck `impact`.
    Bullet { origin: GridPoint, impact: GridPoint, shooter: Side },
    /// Side `shooter` fired a cannon from `origin`.
    Cannon { origin: GridPoint, shooter: Side },
}

/// What the memory holds about `c`, which was `prev`, once `event`, at
/// `frame`, is remembered: a fallen soldier's cell for
/// `DEATH_MEMORY_FRAMES`, as made by the other side; a bullet's origin and
/// impact, or a cannon's origin, for `FIRE_MEMORY_FRAMES`, as made by the
/// shooter's side.
pub open spec fn remembered_at(prev: Option<Ping>, event: Danger, frame: nat, c: GridPoint) -> Option<
    Ping,
> {
    match event {
        Danger::Death { cell, side } => if c == cell {
            Some(
                Ping {
                    cell,
                    expire_frame: (frame + DEATH_MEMORY_FRAMES) as u64,
                    side: spec_opposite(side),
                },
            )
        } else {
            prev
        },
        Danger::Bullet { origin, impact, shooter } => if c == impact {
            Some(Ping { cell: impact, expire_frame: (frame + FIRE_MEMORY_FRAMES) as u64, side: shooter })
        } else if c == origin {
            Some(Ping { cell: origin, expire_frame: (frame + FIRE_MEMORY_FRAMES) as u64, side: shooter })
        } else {
            prev
        },
        Danger::Cannon { origin, shooter } => if c == origin {
            Some(Ping { cell: origin, expire_frame: (frame + FIRE_MEMORY_FRAMES) as u64, side: shooter })
        } else {
            prev
        },
    }
}

/// What the memory `before` holds about `c` once `event`, at `frame`, is
/// remembered; see `remembered_at`.
pub open spec fn spec_remembered(before: Seq<Ping>, event: Danger, frame: nat, c: GridPoint) -> Option<
    Ping,
> {
    remembered_at(ping_at(before, c), event, frame, c)
}

/// Remembers the danger `event` left at `frame`; see `spec_remembered`.
pub fn remember(pings: &mut TacticalPings, event: Danger, frame: u64)
    requires
        frame + DEATH_MEMORY_FRAMES <= u64::MAX,
    ensures
        forall|c: GridPoint|
            #[trigger] ping_at(final(pings)@, c) == spec_remembered(old(pings)@, event, frame as nat, c),
{
    match event {
        Danger::Death { cell, side } => {
            let other = match side {
                Side::A => Side::B,
                Side::B => Side::A,
                Side::All => Side::All,
            };
            pings.record(cell, frame + DEATH_MEMORY_FRAMES, other);
        },
        Danger::Bullet { origin, impact, shooter } => {
            pings.record(origin, frame + FIRE_MEMORY_FRAMES, shooter);
            pings.record(impact, frame + FIRE_MEMORY_FRAMES, shooter);
        },
        Danger::Cannon { origin, shooter } => {
            pings.record(origin, frame + FIRE_MEMORY_FRAMES, shooter);
        },
    }
}

/// A bullet or explosion about a fallen soldier: whether it was active on
/// the frame he fell, and how far from him it struck, in meters.
#[derive(Clone, Copy, Debug, PartialEq, Eq, Structural)]
pub struct Strike {
    pub active: bool,
    pub distance_m: i64,
}

/// What killed a soldier.
#[derive(Clone, Copy, Debug, PartialEq, Eq, Structural)]
pub enum DeathCause {
    /// The bullet at this position in the list.
    Shot(usize),
    /// The explosion at this position in the list.
    Blast(usize),
    /// Neither could be told.
    Unknown,
}

/// The first of `strikes` that was active and within `range_m`.
fn find_strike(strikes: &Vec<Strike>, range_m: i64) -> (res: Option<usize>)
    ensures
        match res {
            Some(i) => i < strikes@.len() && strikes@[i as int].active && strikes@[i as int].distance_m
                <= range_m && forall|j: int|
                0 <= j < i ==> !((#[trigger] strikes@[j]).active && strikes@[j].distance_m
                    <= range_m),
            None => forall|j: int|
                0 <= j < strikes@.len() ==> !((#[trigger] strikes@[j]).active
                    && strikes@[j].distance_m <= range_m),
        },
{
    let mut i: usize = 0;
    while i < strikes.len()
        invariant
            i <= strikes@.len(),
            forall|j: int|
                0 <= j < i ==> !((#[trigger] strikes@[j]).active && strikes@[j].distance_m
                    <= range_m),
        decreases strikes@.len() - i,
    {
        if strikes[i].active && strikes[i].distance_m <= range_m {
            return Some(i);
        }
        i = i + 1;
    }
    None
}

/// What killed a soldier: the first active bullet that struck within
/// `BULLET_KILL_RANGE_M` of him; else the first active explosion within
/// `BLAST_KILL_RANGE_M`; else it cannot be told.
pub fn death_cause(bullets: &Vec<Strike>, explosions: &Vec<Strike>) -> (res: DeathCause)
    ensures
        match res {
            DeathCause::Shot(i) => i < bullets@.len() && bullets@[i as int].active
                && bullets@[i as int].distance_m <= BULLET_KILL_RANGE_M && forall|j: int|
                0 <= j < i ==> !((#[trigger] bullets@[j]).active && bullets@[j].distance_m
                    <= BULLET_KILL_RANGE_M),
            DeathCause::Blast(i) => (forall|j: int|
                0 <= j < bullets@.len() ==> !((#[trigger] bullets@[j]).active
                    && bullets@[j].distance_m <= BULLET_KILL_RANGE_M)) && i < explosions@.len()
                && explosions@[i as int].active && explosions@[i as int].distance_m
                <= BLAST_KILL_RANGE_M && forall|j: int|
                0 <= j < i ==> !((#[trigger] explosions@[j]).active && explosions@[j].distance_m
                    <= BLAST_KILL_RANGE_M),
            DeathCause::Unknown => (forall|j: int|
                0 <= j < bullets@.len() ==> !((#[trigger] bullets@[j]).active
                    && bullets@[j].distance_m <= BULLET_KILL_RANGE_M)) && forall|j: int|
                0 <= j < explosions@.len() ==> !((#[trigger] explosions@[j]).active
                    && explosions@[j].distance_m <= BLAST_KILL_RANGE_M),
        },
{
    match find_strike(bullets, BULLET_KILL_RANGE_M) {
        Some(i) => DeathCause::Shot(i),
        None => match find_strike(explosions, BLAST_KILL_RANGE_M) {
            Some(i) => DeathCause::Blast(i),
            None => DeathCause::Unknown,
        },
    }
}

/// The soldier whose visibility is computed after soldier `current`, among
/// `count` soldiers: the next one, back to the first after the last.
pub fn next_visibility_index(current: usize, count: usize) -> (res: usize)
    requires
        current < usize::MAX,
    ensures
        res == if current + 1 >= count {
            0
        } else {
            current + 1
        },
{
    if current + 1 >= count {
        0
    } else {
        current + 1
    }
}

/// What a soldier does once his behaviour is over: the dead nothing; the
/// living take the order that was to follow (`then`), or idle.
pub fn finish_behavior(alive: bool, then: Option<OrderKind>) -> (res: Option<OrderKind>)
    ensures
        res == if !alive {
            None
        } else {
            match then {
                Some(o) => Some(o),
                None => Some(OrderKind::Idle),
            }
        },
{
    if !alive {
        return None;
    }
    match then {
        Some(o) => Some(o),
        None => Some(OrderKind::Idle),
    }
}

/// A message the runner reacts to, as far as its own memory goes.
#[derive(Clone, Copy, Debug, PartialEq, Eq, Structural)]
pub enum RunnerEvent {
    /// A danger to remember.
    Danger(Danger),
    /// The next soldier's visibility is to be computed.
    IncrementVisibilityIndex,
    /// Anything else, which the runner's memory ignores.
    Other,
}

/// What the runner remembers between frames: whose visibility is computed
/// next, and the tactical memory of dangers.
pub struct Runner {
    pub current_visibility: usize,
    pub tactical_pings: TacticalPings,
}

/// The visibility index after `events`, from `v`, among `count` soldiers.
pub open spec fn visibility_after(v: nat, events: Seq<RunnerEvent>, count: nat) -> nat
    decreases events.len(),
{
    if events.len() == 0 {
        v
    } else {
        let before = visibility_after(v, events.drop_last(), count);
        if events.last() == RunnerEvent::IncrementVisibilityIndex {
            if before + 1 >= count {
                0
            } else {
                before + 1
            }
        } else {
            before
        }
    }
}

/// What the memory, which held `prev0` about `c`, holds about it after
/// `events` at `frame`.
pub open spec fn memory_after(prev0: Option<Ping>, events: Seq<RunnerEvent>, frame: nat, c: GridPoint) -> Option<Ping>
    decreases events.len(),
{
    if events.len() == 0 {
        prev0
    } else {
        let before = memory_after(prev0, events.drop_last(), frame, c);
        match events.last() {
            RunnerEvent::Danger(d) => remembered_at(before, d, frame, c),
            _ => before,
        }
    }
}

/// Whose visibility is computed next always names a soldier: starting
/// below the count, the index stays below it.
pub proof fn lemma_visibility_in_range(v: nat, events: Seq<RunnerEvent>, count: nat)
    requires
        v < count,
    ensures
        visibility_after(v, events, count) < count,
    decreases events.len(),
{
    if events.len() > 0 {
        lemma_visibility_in_range(v, events.drop_last(), count);
    }
}

impl Runner {
    /// A runner that has seen nothing yet.
    pub fn new() -> (res: Self)
        ensures
            res.current_visibility == 0,
            res.tactical_pings@ == Seq::<Ping>::empty(),
    {
        Runner { current_visibility: 0, tactical_pings: TacticalPings::new() }
    }

    /// Reacts to `events`, in order, at `frame`, with `soldier_count`
    /// soldiers in the battle: each increment moves the visibility index
    /// to the next soldier (back to the first after the last), and each
    /// danger is remembered (`remembered_at`); nothing else changes.
    pub fn react(&mut self, events: &Vec<RunnerEvent>, soldier_count: usize, frame: u64)
        requires
            frame + DEATH_MEMORY_FRAMES <= u64::MAX,
            old(self).current_visibility < usize::MAX,
        ensures
            final(self).current_visibility == visibility_after(
                old(self).current_visibility as nat,
                events@,
                soldier_count as nat,
            ),
            forall|c: GridPoint|
                #[trigger] ping_at(final(self).tactical_pings@, c) == memory_after(
                    ping_at(old(self).tactical_pings@, c),
                    events@,
                    frame as nat,
                    c,
                ),
    {
        let ghost start_v = self.current_visibility as nat;
        let ghost start = self.tactical_pings@;
        let mut i: usize = 0;
        while i < events.len()
            invariant
                i <= events@.len(),
                frame + DEATH_MEMORY_FRAMES <= u64::MAX,
                self.current_visibility == visibility_after(start_v, events@.take(i as int), soldier_count as nat),
                self.current_visibility < usize::MAX,
                forall|c: GridPoint|
                    #[trigger] ping_at(self.tactical_pings@, c) == memory_after(
                        ping_at(start, c),
                        events@.take(i as int),
                        frame as nat,
                        c,
                    ),
            decreases events@.len() - i,
        {
            let ghost prefix = events@.take(i as int);
            proof {
                assert(events@.take(i + 1).drop_last() =~= prefix);
                assert(events@.take(i + 1).last() == events@[i as int]);
            }
            match events[i] {
                RunnerEvent::Danger(d) => {
                    let ghost before = self.tactical_pings@;
                    remember(&mut self.tactical_pings, d, frame);
                    proof {
                        assert forall|c: GridPoint|
                            #[trigger] ping_at(self.tactical_pings@, c) == memory_after(
                                ping_at(start, c),
                                events@.take(i + 1),
                                frame as nat,
                                c,
                            ) by {
                            assert(ping_at(before, c) == memory_after(ping_at(start, c), prefix, frame as nat, c));
                        }
                    }
                },
                RunnerEvent::IncrementVisibilityIndex => {
                    self.current_visibility = next_visibility_index(
                        self.current_visibility,
                        soldier_count,
                    );
                },
                RunnerEvent::Other => {},
            }
            i = i + 1;
        }
        proof {
            assert(events@.take(events@.len() as int) =~= events@);
        }
    }
}

} // verus!
