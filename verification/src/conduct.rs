//! The soldier's step: the rules of `doctrine` and `cqb` put together into
//! what a soldier does on a frame (which order it takes, which grenade it
//! throws, which routine then decides its behaviour), and what an idle
//! soldier does, from waiting to leading his squad towards a flag.

use vstd::prelude::*;
use crate::cqb::{spec_entry_step, EntryStep};
use crate::doctrine::{
    grenade_ready, holds_position, is_turn, spec_grenade_ready, spec_holds_position,
    spec_idle_choice, spec_stagger_offset, stagger_offset, idle_choice, IdleChoice, OrderKind,
    ASSAULT_GRENADE_COOLDOWN, ASSAULT_RANGE_M, FLANK_PERIOD, PANIC_GRENADE_COOLDOWN,
    POINTMAN_ALARM_RANGE_M,
};
use crate::gesture::Stress;
use crate::soldier::BehaviorKind;

verus! {

/// Frames between two looks at the way into a building.
pub const ENTRY_PERIOD: u64 = 60;

/// The way into the building that a soldier's move order leads into
/// (one holding no flag to take), as the soldier stands.
#[derive(Clone, Copy, Debug, PartialEq, Eq, Structural)]
pub struct Entry {
    /// He is still more than fifteen meters from the stacking tile.
    pub away_from_wall: bool,
    /// He is inside the building.
    pub inside: bool,
    /// He is throwing a grenade.
    pub throwing: bool,
    /// A way to the stacking tile was found.
    pub way_to_wall: bool,
}

/// What a soldier sees of himself and around him on a frame, as plain
/// values.
#[derive(Clone, Copy, Debug, PartialEq, Eq, Structural)]
pub struct SoldierSituation {
    pub alive: bool,
    /// His index among the soldiers.
    pub uuid: usize,
    /// Whether his squad has a checkpoint already.
    pub has_checkpoint: bool,
    /// The kind of his current order.
    pub order: OrderKind,
    /// His side plays boldly or his squad is a scout.
    pub eager: bool,
    /// His squad is its company's scout.
    pub is_scout: bool,
    pub stress: Stress,
    /// The frame at which promised support ends (0: none).
    pub support_promise_end: u64,
    /// A living enemy stands within `doctrine::BREACH_RANGE_M`.
    pub enemy_within_breach_range: bool,
    /// How far the nearest enemy fire remembered is, in meters; `None`
    /// when none is.
    pub nearest_fire_m: Option<i64>,
    /// A soldier of the main body covers him (`doctrine::has_support_fire`).
    pub covered: bool,
    pub grenades: u8,
    pub frame: u64,
    pub last_grenade_frame: u64,
    /// He stands in a building.
    pub indoor: bool,
    /// His squad threw a grenade within `doctrine::BREACH_WINDOW` frames.
    pub squad_recent_breach: bool,
    /// The first building worth clearing (`cqb::breach_target`).
    pub breach_candidate: Option<usize>,
    /// How far the nearest flag his side does not hold is, in meters.
    pub nearest_objective_m: Option<i64>,
    /// An enemy guards that flag (`objective::guarded`).
    pub objective_guarded: bool,
    /// How far his target is, in meters, when he has one.
    pub target_m: Option<i64>,
    /// A way to the flanking point was found.
    pub flank_path: bool,
    /// Soldiers are animated every `animate_freq` frames.
    pub animate_freq: u64,
    /// The way into the building his move order leads into, if any.
    pub entry: Option<Entry>,
}

/// The new order a soldier takes on a frame.
#[derive(Clone, Copy, Debug, PartialEq, Eq, Structural)]
pub enum OrderChange {
    /// He hides where he stands, in panic.
    Hide,
    /// He sneaks a few meters towards his target's flank, then idles.
    Flank,
    /// He sneaks to the stacking tile, then holds there to clear.
    SneakToWall,
    /// He holds at the wall while his grenade flies.
    HoldAtWall,
    /// He rushes into the building, keeping what was to follow.
    Storm,
}

/// Where a soldier throws a grenade.
#[derive(Clone, Copy, Debug, PartialEq, Eq, Structural)]
pub enum GrenadeAim {
    /// Blindly towards the nearest enemy fire.
    TowardFire,
    /// Into the building he clears.
    IntoBuilding(usize),
    /// Beside the flag he assaults.
    AtObjective,
}

/// What a soldier does on a frame.
#[derive(Debug)]
pub struct SoldierPlan {
    /// His squad's checkpoint is set where he stands.
    pub record_checkpoint: bool,
    /// He gets up: his order becomes idle.
    pub wake: bool,
    /// The main body's fire eases his stress.
    pub relieved: bool,
    /// The grenades he throws, in order.
    pub grenades: Vec<GrenadeAim>,
    /// The order he takes afterwards, if any.
    pub change: Option<OrderChange>,
    /// He hides in panic: his behaviour is hiding, and nothing else runs.
    pub panic: bool,
    /// The order whose routine decides his behaviour (`None` when dead or
    /// in panic).
    pub behave_by: Option<OrderKind>,
    /// His order was changed on this frame, so his behaviour is set and
    /// passed to his squad even when it did not change.
    pub forced: bool,
}

/// A soldier's plan, as mathematical values.
#[verifier::ext_equal]
pub struct PlanView {
    pub record_checkpoint: bool,
    pub wake: bool,
    pub relieved: bool,
    pub grenades: Seq<GrenadeAim>,
    pub change: Option<OrderChange>,
    pub panic: bool,
    pub behave_by: Option<OrderKind>,
    pub forced: bool,
}

impl View for SoldierPlan {
    type V = PlanView;

    open spec fn view(&self) -> PlanView {
        PlanView {
            record_checkpoint: self.record_checkpoint,
            wake: self.wake,
            relieved: self.relieved,
            grenades: self.grenades@,
            change: self.change,
            panic: self.panic,
            behave_by: self.behave_by,
            forced: self.forced,
        }
    }
}

/// Whether the scout's point man is alarmed by fire `nearest_fire_m`
/// meters away.
pub open spec fn spec_alarm(s: SoldierSituation) -> bool {
    s.is_scout && (s.nearest_fire_m matches Some(d) && d <= POINTMAN_ALARM_RANGE_M)
}

/// The order change of the way into a building at step `step`, when a
/// way to the wall was found or is not needed.
pub open spec fn spec_entry_change(e: Entry) -> Option<OrderChange> {
    match spec_entry_step(e.away_from_wall, e.inside, e.throwing) {
        EntryStep::Approach => if e.way_to_wall {
            Some(OrderChange::SneakToWall)
        } else {
            None
        },
        EntryStep::Clear => Some(OrderChange::HoldAtWall),
        EntryStep::Storm => Some(OrderChange::Storm),
    }
}

/// The order kind a change leads to.
pub open spec fn changed_kind(c: OrderChange) -> OrderKind {
    match c {
        OrderChange::Hide => OrderKind::Hide,
        OrderChange::Flank => OrderKind::SneakTo,
        OrderChange::SneakToWall => OrderKind::SneakTo,
        OrderChange::HoldAtWall => OrderKind::Defend,
        OrderChange::Storm => OrderKind::MoveFastTo,
    }
}

/// Whether an order moves the soldier along a path.
pub open spec fn is_move(o: OrderKind) -> bool {
    o == OrderKind::MoveTo || o == OrderKind::MoveFastTo || o == OrderKind::SneakTo
}

/// What a soldier does on a frame:
/// - the dead do nothing;
/// - a squad without a checkpoint gets one where the soldier stands;
/// - an eager soldier leaves defending or hiding, another leaves hiding,
///   when out of danger and not waiting for promised support;
/// - a scout covered by the main body is relieved;
/// - a soldier not holding a position (or whose position is breached),
///   not covered, in danger, at maximal stress or whose point man is
///   alarmed, with enemy fire remembered somewhere, panics: he throws a
///   grenade towards that fire when he may (`PANIC_GRENADE_COOLDOWN`) and
///   hides, and nothing else runs;
/// - else one who does not hold a position, is outdoors and whose squad
///   did not just clear a building throws into the building worth
///   clearing (two soldiers of three, while grenades last);
/// - an eager soldier not holding a position throws at the nearest flag
///   within `ASSAULT_RANGE_M` that an enemy guards, when he may
///   (`ASSAULT_GRENADE_COOLDOWN`);
/// - an eager idle soldier with a target between five and sixty meters
///   sneaks to its flank on his turn (`FLANK_PERIOD`), when a way there
///   was found;
/// - on his turn (`ENTRY_PERIOD`), a soldier moving into a building
///   approaches its wall, holds there while his grenade flies, then
///   storms in;
/// - the routine of the order then in force decides his behaviour.
pub open spec fn spec_soldier_step(s: SoldierSituation) -> PlanView {
    if !s.alive {
        PlanView {
            record_checkpoint: false,
            wake: false,
            relieved: false,
            grenades: Seq::empty(),
            change: None,
            panic: false,
            behave_by: None,
            forced: false,
        }
    } else {
        let wake = (if s.eager {
            spec_holds_position(s.order)
        } else {
            s.order == OrderKind::Hide
        }) && !s.stress.is_danger && !s.stress.is_max && s.support_promise_end == 0;
        let order1 = if wake {
            OrderKind::Idle
        } else {
            s.order
        };
        let holding = spec_holds_position(order1);
        let breached = holding && s.enemy_within_breach_range;
        let covered = s.is_scout && s.covered;
        let panic = (!holding || breached) && !covered && (s.stress.is_danger || s.stress.is_max
            || spec_alarm(s)) && s.nearest_fire_m is Some;
        if panic {
            PlanView {
                record_checkpoint: !s.has_checkpoint,
                wake,
                relieved: covered,
                grenades: if spec_grenade_ready(
                    s.grenades as nat,
                    s.frame as nat,
                    s.last_grenade_frame as nat,
                    PANIC_GRENADE_COOLDOWN as nat,
                ) {
                    seq![GrenadeAim::TowardFire]
                } else {
                    Seq::empty()
                },
                change: Some(OrderChange::Hide),
                panic: true,
                behave_by: None,
                forced: true,
            }
        } else {
            let breach = if !holding && !s.indoor && !s.squad_recent_breach && s.uuid % 3 != 2
                && s.grenades > 0 {
                s.breach_candidate
            } else {
                None
            };
            let breach_throw: Seq<GrenadeAim> = match breach {
                Some(b) => seq![GrenadeAim::IntoBuilding(b)],
                None => Seq::empty(),
            };
            let assault = !holding && s.eager && spec_grenade_ready(
                s.grenades as nat,
                s.frame as nat,
                s.last_grenade_frame as nat,
                ASSAULT_GRENADE_COOLDOWN as nat,
            ) && (s.nearest_objective_m matches Some(d) && d <= ASSAULT_RANGE_M)
                && s.objective_guarded;
            let assault_throw: Seq<GrenadeAim> = if assault {
                seq![GrenadeAim::AtObjective]
            } else {
                Seq::empty()
            };
            let flank = s.eager && order1 == OrderKind::Idle && (s.target_m matches Some(d) && 5
                < d && d < 60) && (s.frame + spec_stagger_offset(
                (s.uuid * 2) as nat,
                FLANK_PERIOD as nat,
                s.animate_freq as nat,
            )) % (FLANK_PERIOD as int) == 0 && s.flank_path;
            let order2 = if flank {
                OrderKind::SneakTo
            } else {
                order1
            };
            let entry_change = if (s.frame + spec_stagger_offset(
                (s.uuid * 7) as nat,
                ENTRY_PERIOD as nat,
                s.animate_freq as nat,
            )) % (ENTRY_PERIOD as int) == 0 && is_move(order2) {
                match s.entry {
                    Some(e) => spec_entry_change(e),
                    None => None,
                }
            } else {
                None
            };
            let change = match entry_change {
                Some(c) => Some(c),
                None => if flank {
                    Some(OrderChange::Flank)
                } else {
                    None
                },
            };
            let order3 = match change {
                Some(c) => changed_kind(c),
                None => order1,
            };
            PlanView {
                record_checkpoint: !s.has_checkpoint,
                wake,
                relieved: covered,
                grenades: breach_throw + assault_throw,
                change,
                panic: false,
                behave_by: Some(order3),
                forced: wake || change is Some,
            }
        }
    }
}

/// Whether the situation stays within what the frame counters and the
/// staggering can handle.
pub open spec fn situation_in_range(s: SoldierSituation) -> bool {
    &&& 0 < s.animate_freq <= ENTRY_PERIOD
    &&& s.frame + FLANK_PERIOD <= u64::MAX
    &&& s.last_grenade_frame + ASSAULT_GRENADE_COOLDOWN <= u64::MAX
    &&& s.uuid * 7 <= usize::MAX
}

/// The order change of the way into a building.
fn entry_change(e: Entry) -> (res: Option<OrderChange>)
    ensures
        res == spec_entry_change(e),
{
    if e.away_from_wall && !e.inside {
        if e.way_to_wall {
            Some(OrderChange::SneakToWall)
        } else {
            None
        }
    } else if e.throwing && !e.inside {
        Some(OrderChange::HoldAtWall)
    } else {
        Some(OrderChange::Storm)
    }
}

/// The order kind a change leads to.
fn changed_kind_of(c: OrderChange) -> (res: OrderKind)
    ensures
        res == changed_kind(c),
{
    match c {
        OrderChange::Hide => OrderKind::Hide,
        OrderChange::Flank => OrderKind::SneakTo,
        OrderChange::SneakToWall => OrderKind::SneakTo,
        OrderChange::HoldAtWall => OrderKind::Defend,
        OrderChange::Storm => OrderKind::MoveFastTo,
    }
}

/// What a soldier does on a frame; see `spec_soldier_step`.
pub fn soldier_step(s: &SoldierSituation) -> (res: SoldierPlan)
    requires
        s.alive ==> situation_in_range(*s),
    ensures
        res@ == spec_soldier_step(*s),
{
    let mut grenades: Vec<GrenadeAim> = Vec::new();
    if !s.alive {
        let res = SoldierPlan {
            record_checkpoint: false,
            wake: false,
            relieved: false,
            grenades,
            change: None,
            panic: false,
            behave_by: None,
            forced: false,
        };
        assert(res@ =~= spec_soldier_step(*s));
        return res;
    }
    let wake = (if s.eager {
        holds_position(s.order)
    } else {
        s.order == OrderKind::Hide
    }) && !s.stress.is_danger && !s.stress.is_max && s.support_promise_end == 0;
    let order1 = if wake {
        OrderKind::Idle
    } else {
        s.order
    };
    let holding = holds_position(order1);
    let breached = holding && s.enemy_within_breach_range;
    let covered = s.is_scout && s.covered;
    let alarm = match s.nearest_fire_m {
        Some(d) => s.is_scout && d <= POINTMAN_ALARM_RANGE_M,
        None => false,
    };
    let panic = (!holding || breached) && !covered && (s.stress.is_danger || s.stress.is_max
        || alarm) && s.nearest_fire_m.is_some();
    if panic {
        if grenade_ready(s.grenades, s.frame, s.last_grenade_frame, PANIC_GRENADE_COOLDOWN) {
            grenades.push(GrenadeAim::TowardFire);
        }
        let res = SoldierPlan {
            record_checkpoint: !s.has_checkpoint,
            wake,
            relieved: covered,
            grenades,
            change: Some(OrderChange::Hide),
            panic: true,
            behave_by: None,
            forced: true,
        };
        assert(res@ =~= spec_soldier_step(*s));
        return res;
    }
    if !holding && !s.indoor && !s.squad_recent_breach && s.uuid % 3 != 2 && s.grenades > 0 {
        if let Some(b) = s.breach_candidate {
            grenades.push(GrenadeAim::IntoBuilding(b));
        }
    }
    let ghost after_breach = grenades@;
    let near_objective = match s.nearest_objective_m {
        Some(d) => d <= ASSAULT_RANGE_M,
        None => false,
    };
    if !holding && s.eager && grenade_ready(
        s.grenades,
        s.frame,
        s.last_grenade_frame,
        ASSAULT_GRENADE_COOLDOWN,
    ) && near_objective && s.objective_guarded {
        grenades.push(GrenadeAim::AtObjective);
    }
    let in_flank_range = match s.target_m {
        Some(d) => 5 < d && d < 60,
        None => false,
    };
    let flank_offset = stagger_offset((s.uuid * 2) as u64, FLANK_PERIOD, s.animate_freq);
    let flank = s.eager && order1 == OrderKind::Idle && in_flank_range && is_turn(
        s.frame,
        flank_offset,
        FLANK_PERIOD,
    ) && s.flank_path;
    let order2 = if flank {
        OrderKind::SneakTo
    } else {
        order1
    };
    let entry_offset = stagger_offset((s.uuid * 7) as u64, ENTRY_PERIOD, s.animate_freq);
    let moving = order2 == OrderKind::MoveTo || order2 == OrderKind::MoveFastTo || order2
        == OrderKind::SneakTo;
    let entry = if is_turn(s.frame, entry_offset, ENTRY_PERIOD) && moving {
        match s.entry {
            Some(e) => entry_change(e),
            None => None,
        }
    } else {
        None
    };
    let change = match entry {
        Some(c) => Some(c),
        None => if flank {
            Some(OrderChange::Flank)
        } else {
            None
        },
    };
    let order3 = match change {
        Some(c) => changed_kind_of(c),
        None => order1,
    };
    let res = SoldierPlan {
        record_checkpoint: !s.has_checkpoint,
        wake,
        relieved: covered,
        grenades,
        change,
        panic: false,
        behave_by: Some(order3),
        forced: wake || change.is_some(),
    };
    assert(res@ =~= spec_soldier_step(*s));
    res
}

/// Beyond this distance, in meters, from his squad's checkpoint a leader
/// goes back to it.
pub const CHECKPOINT_RANGE_M: i64 = 15;

/// A squad's checkpoint, as its leader sees it.
#[derive(Clone, Copy, Debug, PartialEq, Eq, Structural)]
pub struct Checkpoint {
    /// How far it is, in meters.
    pub distance_m: i64,
    /// The leader stands on its cell.
    pub same_cell: bool,
    /// A way there was found.
    pub way_found: bool,
}

/// The flag the leader goes for (`objective::objective`), as he sees it.
/// When the flag stands in a building and the leader is outside every
/// building, he heads for the nearest stacking tile against its wall
/// (`cqb::stacking_tile`) when there is one, and the place he heads for
/// is that tile; otherwise it is the flag.
#[derive(Clone, Copy, Debug, PartialEq, Eq, Structural)]
pub struct Goal {
    /// He heads for a stacking tile against the flag's building.
    pub via_wall: bool,
    /// The leader stands on the cell he heads for.
    pub same_cell: bool,
    /// A tactical route to the place he heads for was found.
    pub route_found: bool,
    /// A tactical route from the stacking tile to the flag was found.
    pub run_in_found: bool,
}

/// What an idle soldier sees, as plain values.
#[derive(Clone, Copy, Debug, PartialEq, Eq, Structural)]
pub struct IdleSituation {
    /// He stands in a building.
    pub indoor: bool,
    /// His side plays boldly.
    pub bold: bool,
    /// The opponent found to fire at, if any.
    pub opponent: Option<usize>,
    /// His squad is its company's scout.
    pub is_scout: bool,
    /// The main body covers him with its fire.
    pub support_fire: bool,
    pub stress: Stress,
    /// He leads his squad.
    pub leads: bool,
    /// It is his squad's turn to look for a route.
    pub on_turn: bool,
    /// His squad's checkpoint, if it has one.
    pub checkpoint: Option<Checkpoint>,
    /// The flag he goes for, if any.
    pub goal: Option<Goal>,
}

/// What an idle soldier does.
#[derive(Clone, Copy, Debug, PartialEq, Eq, Structural)]
pub enum IdlePlan {
    /// Indoors, he lies down facing the opponent, if one was found.
    HoldIndoors(Option<usize>),
    /// He engages the opponent.
    Engage(usize),
    /// He takes cover where he stands.
    TakeCover,
    /// He waits, crouched.
    Wait,
    /// He runs back to his squad's checkpoint, then idles.
    ReturnToCheckpoint,
    /// He leads his squad to the flag: running for a scout, sneaking for
    /// the main body; by way of the stacking tile against its building's
    /// wall (`via_wall`), and then, when a route in was found, running
    /// from there to the flag (`run_in`).
    Advance { fast: bool, via_wall: bool, run_in: bool },
    /// He waits, and his scout squad passes its turn. The squad's
    /// checkpoint, its first spawn point, stays where it is.
    PassTurn,
}

/// What a leader on his turn does: the main body goes back to a checkpoint
/// farther than `CHECKPOINT_RANGE_M` when a way is found, and waits when
/// nearer; otherwise he goes for his flag (waiting when on it, and, for a
/// scout, passing his turn when no route is found); with no flag, a scout
/// goes back to his checkpoint and passes his turn once there (or when no
/// way back is found, the checkpoint staying where it is), and the main
/// body waits.
pub open spec fn spec_advance(s: IdleSituation) -> IdlePlan {
    let main_at = !s.is_scout && s.checkpoint is Some;
    let cp = s.checkpoint->0;
    if main_at && cp.distance_m > CHECKPOINT_RANGE_M && !cp.same_cell && cp.way_found {
        IdlePlan::ReturnToCheckpoint
    } else if main_at && cp.distance_m <= CHECKPOINT_RANGE_M {
        IdlePlan::Wait
    } else {
        match s.goal {
            Some(g) => if g.same_cell {
                IdlePlan::Wait
            } else if g.route_found {
                IdlePlan::Advance {
                    fast: s.is_scout,
                    via_wall: g.via_wall,
                    run_in: g.via_wall && g.run_in_found,
                }
            } else if s.is_scout {
                IdlePlan::PassTurn
            } else {
                IdlePlan::Wait
            },
            None => if s.is_scout && s.checkpoint is Some {
                if cp.distance_m > CHECKPOINT_RANGE_M && !cp.same_cell {
                    if cp.way_found {
                        IdlePlan::ReturnToCheckpoint
                    } else {
                        IdlePlan::PassTurn
                    }
                } else {
                    IdlePlan::PassTurn
                }
            } else {
                IdlePlan::Wait
            },
        }
    }
}

/// What an idle soldier does: `doctrine::spec_idle_choice`, and, when he
/// advances, `spec_advance`.
pub open spec fn spec_idle_step(s: IdleSituation) -> IdlePlan {
    match spec_idle_choice(
        s.indoor,
        s.bold,
        s.opponent,
        s.is_scout,
        s.support_fire,
        s.stress,
        s.leads,
        s.on_turn,
    ) {
        IdleChoice::HoldIndoors(o) => IdlePlan::HoldIndoors(o),
        IdleChoice::Engage(o) => IdlePlan::Engage(o),
        IdleChoice::TakeCover => IdlePlan::TakeCover,
        IdleChoice::Wait => IdlePlan::Wait,
        IdleChoice::Advance => spec_advance(s),
    }
}

/// What a leader on his turn does; see `spec_advance`.
fn advance(s: &IdleSituation) -> (res: IdlePlan)
    ensures
        res == spec_advance(*s),
{
    if !s.is_scout {
        if let Some(cp) = s.checkpoint {
            if cp.distance_m > CHECKPOINT_RANGE_M {
                if !cp.same_cell && cp.way_found {
                    return IdlePlan::ReturnToCheckpoint;
                }
            } else {
                return IdlePlan::Wait;
            }
        }
    }
    match s.goal {
        Some(g) => {
            if g.same_cell {
                IdlePlan::Wait
            } else if g.route_found {
                IdlePlan::Advance {
                    fast: s.is_scout,
                    via_wall: g.via_wall,
                    run_in: g.via_wall && g.run_in_found,
                }
            } else if s.is_scout {
                IdlePlan::PassTurn
            } else {
                IdlePlan::Wait
            }
        },
        None => {
            if !s.is_scout {
                return IdlePlan::Wait;
            }
            match s.checkpoint {
                Some(cp) => {
                    if cp.distance_m > CHECKPOINT_RANGE_M && !cp.same_cell {
                        if cp.way_found {
                            IdlePlan::ReturnToCheckpoint
                        } else {
                            IdlePlan::PassTurn
                        }
                    } else {
                        IdlePlan::PassTurn
                    }
                },
                None => IdlePlan::Wait,
            }
        },
    }
}

/// What an idle soldier does; see `spec_idle_step`.
pub fn idle_step(s: &IdleSituation) -> (res: IdlePlan)
    ensures
        res == spec_idle_step(*s),
{
    match idle_choice(
        s.indoor,
        s.bold,
        s.opponent,
        s.is_scout,
        s.support_fire,
        s.stress,
        s.leads,
        s.on_turn,
    ) {
        IdleChoice::HoldIndoors(o) => IdlePlan::HoldIndoors(o),
        IdleChoice::Engage(o) => IdlePlan::Engage(o),
        IdleChoice::TakeCover => IdlePlan::TakeCover,
        IdleChoice::Wait => IdlePlan::Wait,
        IdleChoice::Advance => advance(s),
    }
}

/// A squad that could be sent to help or to fill a gap, as the squad in
/// need sees it.
#[derive(Clone, Copy, Debug, PartialEq, Eq, Structural)]
pub struct ReserveCandidate {
    pub squad: usize,
    /// Its leader is alive, of the same side, idle, defending or hiding,
    /// and no enemy is within `doctrine::RESERVE_SAFETY_M` of him.
    pub available: bool,
    /// It stands farther than `doctrine::BACKFILL_DEPTH_M` from the fight.
    pub behind_front: bool,
}

/// Whether `c` can be sent: available, not among `taken` (the squad in
/// need and those already sent on this tick), and, to fill a gap
/// (`need_depth`), behind the front.
pub open spec fn can_send(c: ReserveCandidate, taken: Seq<usize>, need_depth: bool) -> bool {
    c.available && !taken.contains(c.squad) && (need_depth ==> c.behind_front)
}

/// Whether a squad calls for help: its leader is alive, under fire or
/// with a target, and its side is outnumbered around him
/// (`doctrine::outnumbered`).
pub open spec fn spec_needs_help(alive: bool, engaged: bool, allies: nat, enemies: nat) -> bool {
    alive && engaged && enemies > allies && allies > 0
}

/// Whether a squad calls for help; see `spec_needs_help`.
pub fn needs_help(alive: bool, engaged: bool, allies: usize, enemies: usize) -> (res: bool)
    ensures
        res == spec_needs_help(alive, engaged, allies as nat, enemies as nat),
{
    alive && engaged && enemies > allies && allies > 0
}

/// The squad sent, among `candidates` ranked nearest first: the first
/// that can be sent (`can_send`). A squad already taken is never sent
/// again on the same tick.
pub fn pick_reserve(candidates: &Vec<ReserveCandidate>, taken: &Vec<usize>, need_depth: bool) -> (res:
    Option<usize>)
    ensures
        match res {
            Some(i) => i < candidates@.len() && can_send(candidates@[i as int], taken@, need_depth)
                && !taken@.contains(candidates@[i as int].squad) && forall|j: int|
                0 <= j < i ==> !can_send(#[trigger] candidates@[j], taken@, need_depth),
            None => forall|j: int|
                0 <= j < candidates@.len() ==> !can_send(#[trigger] candidates@[j], taken@, need_depth),
        },
{
    let mut i: usize = 0;
    while i < candidates.len()
        invariant
            i <= candidates@.len(),
            forall|j: int| 0 <= j < i ==> !can_send(#[trigger] candidates@[j], taken@, need_depth),
        decreases candidates@.len() - i,
    {
        let c = candidates[i];
        if c.available && (!need_depth || c.behind_front) {
            let mut k: usize = 0;
            let mut found = false;
            while k < taken.len()
                invariant
                    k <= taken@.len(),
                    found == exists|m: int| 0 <= m < k && taken@[m] == c.squad,
                decreases taken@.len() - k,
            {
                if taken[k] == c.squad {
                    found = true;
                }
                k = k + 1;
            }
            if !found {
                return Some(i);
            }
        }
        i = i + 1;
    }
    None
}

/// How a leader's behaviour reaches his squad.
#[derive(Clone, Copy, Debug, PartialEq, Eq, Structural)]
pub enum Propagation {
    /// Members on foot follow his path.
    Move,
    /// The driver of his vehicle drives his path.
    Drive,
    /// Members on foot defend or hide around him.
    DefendOrHide,
    /// His vehicle turns.
    Rotate,
    /// Nothing is passed on.
    Keep,
    /// Every member leaves the map until this frame.
    OffMap(u64),
    /// Members lay suppressive fire.
    Suppress,
    /// Members engage the squad of this soldier.
    Engage(usize),
}

/// How a leader's behaviour `b` reaches his squad, on foot or in a
/// vehicle (`in_vehicle`): moves are followed (driven in a vehicle),
/// defending, hiding and scattering or gathering to cover are shared
/// (turned in a vehicle), idling, death and unconsciousness pass nothing
/// on (so that followers still on their way are not stopped), leaving the
/// map, suppressive fire and engaging are passed on as they are.
pub open spec fn spec_propagation(b: BehaviorKind, in_vehicle: bool) -> Propagation {
    match b {
        BehaviorKind::MoveTo | BehaviorKind::MoveFastTo | BehaviorKind::SneakTo => if in_vehicle {
            Propagation::Drive
        } else {
            Propagation::Move
        },
        BehaviorKind::Defend | BehaviorKind::Hide | BehaviorKind::ScatterToCover
        | BehaviorKind::GatherToCover => if in_vehicle {
            Propagation::Rotate
        } else {
            Propagation::DefendOrHide
        },
        BehaviorKind::OffMapTransit(f) => Propagation::OffMap(f),
        BehaviorKind::SuppressFire => Propagation::Suppress,
        BehaviorKind::EngageSoldier(i) => Propagation::Engage(i),
        _ => Propagation::Keep,
    }
}

/// How a leader's behaviour reaches his squad; see `spec_propagation`.
/// Driving and turning are not leader behaviours that are passed on.
pub fn propagation(b: BehaviorKind, in_vehicle: bool) -> (res: Propagation)
    requires
        b != BehaviorKind::DriveTo,
        b != BehaviorKind::RotateTo,
    ensures
        res == spec_propagation(b, in_vehicle),
{
    match b {
        BehaviorKind::MoveTo | BehaviorKind::MoveFastTo | BehaviorKind::SneakTo => {
            if in_vehicle {
                Propagation::Drive
            } else {
                Propagation::Move
            }
        },
        BehaviorKind::Defend | BehaviorKind::Hide | BehaviorKind::ScatterToCover
        | BehaviorKind::GatherToCover => {
            if in_vehicle {
                Propagation::Rotate
            } else {
                Propagation::DefendOrHide
            }
        },
        BehaviorKind::OffMapTransit(f) => Propagation::OffMap(f),
        BehaviorKind::SuppressFire => Propagation::Suppress,
        BehaviorKind::EngageSoldier(i) => Propagation::Engage(i),
        _ => Propagation::Keep,
    }
}

/// Whether a member takes `order` from his leader: one in panic (in
/// danger or at maximal stress) or hiding from a blast (ordered to hide,
/// and hiding) takes only orders to hide, to defend or to leave the map,
/// except that one not in panic still follows a move.
pub open spec fn spec_obeys(stress: Stress, own_order: OrderKind, own_behavior: BehaviorKind, order: OrderKind) -> bool {
    let panicking = stress.is_danger || stress.is_max;
    let dodging = own_order == OrderKind::Hide && own_behavior == BehaviorKind::Hide;
    !((panicking || dodging) && !(order == OrderKind::Hide || order == OrderKind::Defend || order
        == OrderKind::OffMapTransit) && !(!panicking && is_move(order)))
}

/// Whether a member takes `order` from his leader; see `spec_obeys`.
pub fn obeys(stress: Stress, own_order: OrderKind, own_behavior: BehaviorKind, order: OrderKind) -> (res: bool)
    ensures
        res == spec_obeys(stress, own_order, own_behavior, order),
{
    let panicking = stress.is_danger || stress.is_max;
    let dodging = own_order == OrderKind::Hide && own_behavior == BehaviorKind::Hide;
    let sheltering = order == OrderKind::Hide || order == OrderKind::Defend || order
        == OrderKind::OffMapTransit;
    let moving = order == OrderKind::MoveTo || order == OrderKind::MoveFastTo || order
        == OrderKind::SneakTo;
    !((panicking || dodging) && !sheltering && !(!panicking && moving))
}

/// A calm member who is not hiding from a blast takes every order of his
/// leader; one hiding from a blast, out of panic, still follows a move.
pub proof fn lemma_calm_members_obey(own_order: OrderKind, own_behavior: BehaviorKind, order: OrderKind)
    ensures
        !(own_order == OrderKind::Hide && own_behavior == BehaviorKind::Hide) ==> spec_obeys(
            Stress { is_danger: false, is_max: false },
            own_order,
            own_behavior,
            order,
        ),
        is_move(order) ==> spec_obeys(
            Stress { is_danger: false, is_max: false },
            own_order,
            own_behavior,
            order,
        ),
{
}

/// A member in panic never leaves cover at his leader's word: the orders
/// he takes are to hide, to defend or to leave the map.
pub proof fn lemma_panic_keeps_cover(own_order: OrderKind, own_behavior: BehaviorKind, order: OrderKind)
    ensures
        spec_obeys(Stress { is_danger: true, is_max: false }, own_order, own_behavior, order) ==> (
        order == OrderKind::Hide || order == OrderKind::Defend || order == OrderKind::OffMapTransit),
{
}

/// A grenade is thrown at a flag only when that flag is worth it: the
/// soldier is alive and eager, has a grenade, last threw one more than
/// `ASSAULT_GRENADE_COOLDOWN` frames ago, the nearest flag his side does
/// not hold is within `ASSAULT_RANGE_M`, and an enemy guards it. An eager
/// soldier on the move, calm and with no enemy fire remembered, who meets
/// all that, does throw.
pub proof fn lemma_assault_grenade_needs_guard(s: SoldierSituation)
    ensures
        spec_soldier_step(s).grenades.contains(GrenadeAim::AtObjective) ==> {
            &&& s.alive
            &&& s.eager
            &&& s.objective_guarded
            &&& s.grenades > 0
            &&& s.frame > s.last_grenade_frame + ASSAULT_GRENADE_COOLDOWN
            &&& s.nearest_objective_m matches Some(d) && d <= ASSAULT_RANGE_M
        },
        ({
            &&& s.alive
            &&& s.order == OrderKind::MoveTo
            &&& !s.stress.is_danger
            &&& !s.stress.is_max
            &&& s.nearest_fire_m is None
            &&& s.eager
            &&& s.objective_guarded
            &&& s.grenades > 0
            &&& s.frame > s.last_grenade_frame + ASSAULT_GRENADE_COOLDOWN
            &&& s.nearest_objective_m matches Some(d) && d <= ASSAULT_RANGE_M
        }) ==> spec_soldier_step(s).grenades.contains(GrenadeAim::AtObjective),
{
    let p = spec_soldier_step(s);
    if p.grenades.contains(GrenadeAim::AtObjective) {
        let i = choose|i: int| 0 <= i < p.grenades.len() && p.grenades[i] == GrenadeAim::AtObjective;
        assert(p.grenades[i] == GrenadeAim::AtObjective);
    }
    if s.alive && s.order == OrderKind::MoveTo && !s.stress.is_danger && !s.stress.is_max
        && s.nearest_fire_m is None && s.eager && s.objective_guarded && s.grenades > 0 && s.frame
        > s.last_grenade_frame + ASSAULT_GRENADE_COOLDOWN && (s.nearest_objective_m matches Some(
        d) && d <= ASSAULT_RANGE_M) {
        assert(p.grenades.last() == GrenadeAim::AtObjective);
        assert(p.grenades[p.grenades.len() - 1] == GrenadeAim::AtObjective);
    }
}

/// Every move of a leader is passed on as a move: a squad on foot follows
/// his path whether he walks, runs or sneaks, and in a vehicle the driver
/// drives it. Cover is shared or turned to, and nothing is passed on from
/// an idle, dead or unconscious leader.
pub proof fn lemma_moves_are_followed(in_vehicle: bool, body: crate::soldier::Body)
    ensures
        spec_propagation(BehaviorKind::MoveTo, false) == Propagation::Move,
        spec_propagation(BehaviorKind::MoveFastTo, false) == Propagation::Move,
        spec_propagation(BehaviorKind::SneakTo, false) == Propagation::Move,
        spec_propagation(BehaviorKind::MoveTo, true) == Propagation::Drive,
        spec_propagation(BehaviorKind::MoveFastTo, true) == Propagation::Drive,
        spec_propagation(BehaviorKind::SneakTo, true) == Propagation::Drive,
        spec_propagation(BehaviorKind::Defend, false) == Propagation::DefendOrHide,
        spec_propagation(BehaviorKind::Hide, false) == Propagation::DefendOrHide,
        spec_propagation(BehaviorKind::ScatterToCover, false) == Propagation::DefendOrHide,
        spec_propagation(BehaviorKind::GatherToCover, false) == Propagation::DefendOrHide,
        spec_propagation(BehaviorKind::Defend, true) == Propagation::Rotate,
        spec_propagation(BehaviorKind::Hide, true) == Propagation::Rotate,
        spec_propagation(BehaviorKind::Idle(body), in_vehicle) == Propagation::Keep,
        spec_propagation(BehaviorKind::Dead, in_vehicle) == Propagation::Keep,
        spec_propagation(BehaviorKind::Unconscious, in_vehicle) == Propagation::Keep,
        forall|f: u64| spec_propagation(BehaviorKind::OffMapTransit(f), in_vehicle) == Propagation::OffMap(f),
        forall|i: usize| spec_propagation(BehaviorKind::EngageSoldier(i), in_vehicle) == Propagation::Engage(i),
        spec_propagation(BehaviorKind::SuppressFire, in_vehicle) == Propagation::Suppress,
{
}

/// Each part of a soldier's plan has its reason in what he sees:
/// - he gets up only from hiding (or, eager, from defending), out of
///   danger, below maximal stress and waiting for no promised support;
/// - he panics only with enemy fire remembered, when in danger, at
///   maximal stress or (as a scout) with fire within
///   `POINTMAN_ALARM_RANGE_M`, and never while the main body covers him
///   as a scout; his blind grenade needs a grenade and
///   `PANIC_GRENADE_COOLDOWN` frames since the last;
/// - he throws into a building only into the one worth clearing, from
///   outdoors, when his squad did not just clear one, with a grenade, and
///   as one of the two soldiers of three who do;
/// - he flanks only when eager, with a target between five and sixty
///   meters and a way found;
/// - he sneaks to a wall only with a way there, away from it and outside;
///   he holds at the wall only while throwing, outside.
pub proof fn lemma_plan_reasons(s: SoldierSituation)
    ensures
        spec_soldier_step(s).wake ==> !s.stress.is_danger && !s.stress.is_max
            && s.support_promise_end == 0 && (s.order == OrderKind::Hide || (s.eager && s.order
            == OrderKind::Defend)),
        spec_soldier_step(s).panic ==> s.alive && s.nearest_fire_m is Some && (s.stress.is_danger
            || s.stress.is_max || (s.is_scout && (s.nearest_fire_m matches Some(d) && d
            <= POINTMAN_ALARM_RANGE_M))) && !(s.is_scout && s.covered),
        spec_soldier_step(s).grenades.contains(GrenadeAim::TowardFire) ==> spec_soldier_step(s).panic
            && s.grenades > 0 && s.frame > s.last_grenade_frame + PANIC_GRENADE_COOLDOWN,
        forall|b: usize|
            #[trigger] spec_soldier_step(s).grenades.contains(GrenadeAim::IntoBuilding(b)) ==> s.alive
                && s.breach_candidate == Some(b) && !s.indoor && !s.squad_recent_breach && s.uuid
                % 3 != 2 && s.grenades > 0,
        spec_soldier_step(s).change == Some(OrderChange::Flank) ==> s.alive && s.eager
            && s.flank_path && (s.target_m matches Some(d) && 5 < d && d < 60),
        spec_soldier_step(s).change == Some(OrderChange::SneakToWall) ==> (s.entry matches Some(e)
            && e.way_to_wall && e.away_from_wall && !e.inside),
        spec_soldier_step(s).change == Some(OrderChange::HoldAtWall) ==> (s.entry matches Some(e)
            && e.throwing && !e.inside),
        spec_soldier_step(s).change == Some(OrderChange::Storm) ==> s.entry is Some,
{
    let p = spec_soldier_step(s);
    if p.grenades.contains(GrenadeAim::TowardFire) {
        let i = choose|i: int| 0 <= i < p.grenades.len() && p.grenades[i] == GrenadeAim::TowardFire;
        assert(p.grenades[i] == GrenadeAim::TowardFire);
    }
    assert forall|b: usize| #[trigger] p.grenades.contains(GrenadeAim::IntoBuilding(b)) implies s.alive
        && s.breach_candidate == Some(b) && !s.indoor && !s.squad_recent_breach && s.uuid % 3 != 2
        && s.grenades > 0 by {
        let i = choose|i: int| 0 <= i < p.grenades.len() && p.grenades[i] == GrenadeAim::IntoBuilding(b);
        assert(p.grenades[i] == GrenadeAim::IntoBuilding(b));
    }
}

/// Each idle plan has its reason in what the soldier sees: he holds a
/// building only indoors on a side that does not play boldly; he engages
/// only the opponent found, and as a scout only under covering fire; he
/// takes cover only in danger or at maximal stress; he goes back to the
/// checkpoint only when it is farther than `CHECKPOINT_RANGE_M`, off his
/// cell, with a way found; he advances only as a leader on his turn,
/// towards a flag off his cell with a route found, by its wall exactly
/// when the goal says so, and runs in only when a route in was found.
pub proof fn lemma_idle_reasons(s: IdleSituation)
    ensures
        spec_idle_step(s) matches IdlePlan::HoldIndoors(o) ==> s.indoor && !s.bold && o == s.opponent,
        spec_idle_step(s) matches IdlePlan::Engage(o) ==> s.opponent == Some(o) && (!s.is_scout
            || s.support_fire),
        spec_idle_step(s) == IdlePlan::TakeCover ==> s.stress.is_danger || s.stress.is_max,
        spec_idle_step(s) == IdlePlan::ReturnToCheckpoint ==> (s.checkpoint matches Some(cp)
            && cp.distance_m > CHECKPOINT_RANGE_M && !cp.same_cell && cp.way_found) && s.leads
            && s.on_turn,
        spec_idle_step(s) matches IdlePlan::Advance { fast, via_wall, run_in } ==> (s.goal matches Some(
            g) && !g.same_cell && g.route_found && via_wall == g.via_wall && run_in == (g.via_wall
            && g.run_in_found)) && s.leads && s.on_turn && fast == s.is_scout,
        spec_idle_step(s) == IdlePlan::PassTurn ==> s.is_scout && s.leads && s.on_turn,
{
}

/// A soldier in panic throws at most one grenade, and only towards enemy
/// fire; a dead soldier does nothing.
pub proof fn lemma_panic_is_blind(s: SoldierSituation)
    ensures
        spec_soldier_step(s).panic ==> spec_soldier_step(s).grenades.len() <= 1 && (forall|i: int|
            0 <= i < spec_soldier_step(s).grenades.len() ==> spec_soldier_step(s).grenades[i]
                == GrenadeAim::TowardFire) && spec_soldier_step(s).change == Some(
            OrderChange::Hide,
        ),
        !s.alive ==> spec_soldier_step(s).grenades.len() == 0 && spec_soldier_step(s).change is None
            && spec_soldier_step(s).behave_by is None,
{
}

/// A squad's checkpoint is its first spawn point for good: a soldier's
/// step sets it only when the squad has none, and no idle plan moves it.
pub proof fn lemma_checkpoint_kept(s: SoldierSituation)
    ensures
        spec_soldier_step(s).record_checkpoint ==> !s.has_checkpoint,
{
}

/// The main body never runs for a flag: when a leader advances, he runs
/// only if his squad is the scout.
pub proof fn lemma_only_scouts_run(s: IdleSituation)
    ensures
        spec_idle_step(s) matches IdlePlan::Advance { fast, .. } ==> fast == s.is_scout,
        spec_idle_step(s) is PassTurn ==> s.is_scout,
{
}

} // verus!
