//! The rules by which soldiers and squads decide, frame after frame: when
//! a hiding soldier gets up, when one panics, when grenades may be thrown,
//! how the work of many soldiers is spread over the frames, what a soldier
//! out of ammunition does, who takes over a squad whose leader fell, and
//! when a squad calls for help.

use vstd::prelude::*;
use crate::gesture::{random_in, Stress};

verus! {

/// The kinds of order a soldier can be given.
#[derive(Clone, Copy, Debug, PartialEq, Eq, Structural)]
pub enum OrderKind {
    Idle,
    MoveTo,
    MoveFastTo,
    SneakTo,
    Defend,
    Hide,
    EngageSquad,
    SuppressFire,
    OffMapTransit,
}

/// Whether an order keeps the soldier in position: defending or hiding.
pub open spec fn spec_holds_position(order: OrderKind) -> bool {
    order == OrderKind::Defend || order == OrderKind::Hide
}

/// Whether `order` keeps the soldier in position.
pub fn holds_position(order: OrderKind) -> (res: bool)
    ensures
        res == spec_holds_position(order),
{
    match order {
        OrderKind::Defend | OrderKind::Hide => true,
        _ => false,
    }
}

/// Whether a soldier under `order` gets up and goes back to idle. An eager
/// soldier (its side plays boldly, or its squad is the scout) leaves
/// defending and hiding; another leaves hiding only. Neither gets up while
/// in danger, at maximal stress, or while waiting for promised support.
pub fn wakes_up(order: OrderKind, eager: bool, stress: Stress, support_promise_end: u64) -> (res:
    bool)
    ensures
        res == ((if eager {
            spec_holds_position(order)
        } else {
            order == OrderKind::Hide
        }) && !stress.is_danger && !stress.is_max && support_promise_end == 0),
{
    let awake = if eager {
        holds_position(order)
    } else {
        order == OrderKind::Hide
    };
    awake && !stress.is_danger && !stress.is_max && support_promise_end == 0
}

/// How close, in meters, enemy fire must come to make a scout's point man
/// fall back.
pub const POINTMAN_ALARM_RANGE_M: i64 = 35;

/// Whether the point man of a scout squad is under attack: the nearest
/// enemy fire is within `POINTMAN_ALARM_RANGE_M`.
pub fn pointman_under_attack(is_scout: bool, nearest_fire_m: Option<i64>) -> (res: bool)
    ensures
        res == (is_scout && (nearest_fire_m matches Some(d) && d <= POINTMAN_ALARM_RANGE_M)),
{
    match nearest_fire_m {
        Some(d) => is_scout && d <= POINTMAN_ALARM_RANGE_M,
        None => false,
    }
}

/// Whether a soldier panics: it does not hold a position (or its position
/// is breached), no friendly fire covers it, and it is in danger, at
/// maximal stress or its point man is under attack.
pub fn panics(holding: bool, breached: bool, covered: bool, stress: Stress, pointman_alarm: bool)
    -> (res: bool)
    ensures
        res == ((!holding || breached) && !covered && (stress.is_danger || stress.is_max
            || pointman_alarm)),
{
    (!holding || breached) && !covered && (stress.is_danger || stress.is_max || pointman_alarm)
}

/// How far, in meters, a friend may stand and still cover a scout with
/// his fire.
pub const SUPPORT_FIRE_RANGE_M: i64 = 60;

/// A living friend of a soldier, as that soldier sees him.
#[derive(Clone, Copy, Debug)]
pub struct Comrade {
    /// How far he stands, in meters.
    pub distance_m: i64,
    /// Whether his squad is its company's scout.
    pub is_scout: bool,
    /// Whether he engages an enemy or lays suppressive fire.
    pub firing: bool,
}

/// Whether `c` covers a scout with his fire: a soldier of the main body,
/// firing, within `SUPPORT_FIRE_RANGE_M`.
pub open spec fn spec_covers(c: Comrade) -> bool {
    c.distance_m <= SUPPORT_FIRE_RANGE_M && !c.is_scout && c.firing
}

/// Whether some friend among `comrades` covers the soldier with his fire.
pub fn has_support_fire(comrades: &Vec<Comrade>) -> (res: bool)
    ensures
        res == exists|i: int| 0 <= i < comrades@.len() && spec_covers(#[trigger] comrades@[i]),
{
    let mut i: usize = 0;
    while i < comrades.len()
        invariant
            i <= comrades@.len(),
            forall|j: int| 0 <= j < i ==> !spec_covers(#[trigger] comrades@[j]),
        decreases comrades@.len() - i,
    {
        let c = comrades[i];
        if c.distance_m <= SUPPORT_FIRE_RANGE_M && !c.is_scout && c.firing {
            assert(spec_covers(comrades@[i as int]));
            return true;
        }
        i = i + 1;
    }
    false
}

/// How near, in meters, an enemy must come to breach a held position.
pub const BREACH_RANGE_M: i64 = 10;

/// Whether a held position is breached: the soldier holds it and some
/// living enemy, at `enemy_distances_m` meters, is within
/// `BREACH_RANGE_M`.
pub fn defense_breached(holding: bool, enemy_distances_m: &Vec<i64>) -> (res: bool)
    ensures
        res == (holding && exists|i: int|
            0 <= i < enemy_distances_m@.len() && #[trigger] enemy_distances_m@[i]
                <= BREACH_RANGE_M),
{
    if !holding {
        return false;
    }
    let mut i: usize = 0;
    while i < enemy_distances_m.len()
        invariant
            holding,
            i <= enemy_distances_m@.len(),
            forall|j: int| 0 <= j < i ==> #[trigger] enemy_distances_m@[j] > BREACH_RANGE_M,
        decreases enemy_distances_m@.len() - i,
    {
        if enemy_distances_m[i] <= BREACH_RANGE_M {
            return true;
        }
        i = i + 1;
    }
    false
}

/// What an idle soldier does.
#[derive(Clone, Copy, Debug, PartialEq, Eq, Structural)]
pub enum IdleChoice {
    /// Indoors, he lies down behind the walls, facing the opponent found,
    /// if any.
    HoldIndoors(Option<usize>),
    /// He engages the opponent.
    Engage(usize),
    /// In danger, he takes cover where he stands.
    TakeCover,
    /// He leads his squad towards an objective.
    Advance,
    /// He waits, crouched.
    Wait,
}

/// What an idle soldier does: indoors (unless his side plays boldly) he
/// holds the building; else he engages the opponent found, which a scout
/// does only under the main body's covering fire; else, in danger or at
/// maximal stress, he takes cover; else the leader of a bold side's squad
/// or of a scout squad advances on his turn; everyone else waits.
pub open spec fn spec_idle_choice(
    indoor: bool,
    bold: bool,
    opponent: Option<usize>,
    is_scout: bool,
    support_fire: bool,
    stress: Stress,
    leads: bool,
    on_turn: bool,
) -> IdleChoice {
    if indoor && !bold {
        IdleChoice::HoldIndoors(opponent)
    } else if opponent is Some && (!is_scout || support_fire) {
        IdleChoice::Engage(opponent->0)
    } else if stress.is_danger || stress.is_max {
        IdleChoice::TakeCover
    } else if (bold || is_scout) && leads && on_turn {
        IdleChoice::Advance
    } else {
        IdleChoice::Wait
    }
}

/// What an idle soldier does; see `spec_idle_choice`.
pub fn idle_choice(
    indoor: bool,
    bold: bool,
    opponent: Option<usize>,
    is_scout: bool,
    support_fire: bool,
    stress: Stress,
    leads: bool,
    on_turn: bool,
) -> (res: IdleChoice)
    ensures
        res == spec_idle_choice(
            indoor,
            bold,
            opponent,
            is_scout,
            support_fire,
            stress,
            leads,
            on_turn,
        ),
{
    if indoor && !bold {
        return IdleChoice::HoldIndoors(opponent);
    }
    if let Some(o) = opponent {
        if !is_scout || support_fire {
            return IdleChoice::Engage(o);
        }
    }
    if stress.is_danger || stress.is_max {
        IdleChoice::TakeCover
    } else if (bold || is_scout) && leads && on_turn {
        IdleChoice::Advance
    } else {
        IdleChoice::Wait
    }
}

/// A scout never engages without cover: whenever an idle scout outdoors
/// engages, a soldier of the main body covers him with his fire.
pub proof fn lemma_scout_engages_under_cover(
    bold: bool,
    opponent: Option<usize>,
    support_fire: bool,
    stress: Stress,
    leads: bool,
    on_turn: bool,
)
    requires
        spec_idle_choice(false, bold, opponent, true, support_fire, stress, leads, on_turn) is Engage,
    ensures
        support_fire,
{
}

/// Frames between two grenades thrown in panic.
pub const PANIC_GRENADE_COOLDOWN: u64 = 120;

/// Frames between two grenades thrown at an objective.
pub const ASSAULT_GRENADE_COOLDOWN: u64 = 180;

/// Frames after a grenade during which its squad counts as having
/// cleared a building.
pub const BREACH_WINDOW: u64 = 1200;

/// Whether a soldier with `grenades` grenades, whose last grenade left
/// at `last_grenade_frame`, may throw one at `frame`: it has one, and more
/// than `cooldown` frames passed since its last.
pub open spec fn spec_grenade_ready(grenades: nat, frame: nat, last_grenade_frame: nat, cooldown: nat)
    -> bool {
    grenades > 0 && frame > last_grenade_frame + cooldown
}

/// Whether a soldier may throw a grenade at `frame`.
pub fn grenade_ready(grenades: u8, frame: u64, last_grenade_frame: u64, cooldown: u64) -> (res:
    bool)
    requires
        last_grenade_frame + cooldown <= u64::MAX,
    ensures
        res == spec_grenade_ready(grenades as nat, frame as nat, last_grenade_frame as nat, cooldown as nat),
{
    grenades > 0 && frame > last_grenade_frame + cooldown
}

/// Two grenades of one soldier are more than the cooldown apart: once a
/// grenade left at `thrown`, the next may leave only after `cooldown`
/// more frames, and only while one is left.
pub proof fn lemma_grenade_spacing(grenades: nat, thrown: nat, next: nat, cooldown: nat)
    requires
        spec_grenade_ready(grenades, next, thrown, cooldown),
    ensures
        next - thrown > cooldown,
        grenades >= 1,
{
}

/// Whether some member of a squad, whose last grenades were thrown at
/// `last_grenade_frames`, threw one less than `BREACH_WINDOW` frames
/// before `frame`.
pub fn squad_recently_breached(frame: u64, last_grenade_frames: &Vec<u64>) -> (res: bool)
    requires
        forall|i: int|
            0 <= i < last_grenade_frames@.len() ==> #[trigger] last_grenade_frames@[i]
                + BREACH_WINDOW <= u64::MAX,
    ensures
        res == exists|i: int|
            0 <= i < last_grenade_frames@.len() && frame < #[trigger] last_grenade_frames@[i]
                + BREACH_WINDOW,
{
    let mut i: usize = 0;
    while i < last_grenade_frames.len()
        invariant
            i <= last_grenade_frames@.len(),
            forall|j: int|
                0 <= j < last_grenade_frames@.len() ==> #[trigger] last_grenade_frames@[j]
                    + BREACH_WINDOW <= u64::MAX,
            forall|j: int| 0 <= j < i ==> frame >= #[trigger] last_grenade_frames@[j] + BREACH_WINDOW,
        decreases last_grenade_frames@.len() - i,
    {
        if frame < last_grenade_frames[i] + BREACH_WINDOW {
            return true;
        }
        i = i + 1;
    }
    false
}

/// Whether a soldier looks for a building to clear with grenades: it
/// holds no position, is outside, and its squad has not just cleared one.
pub fn seeks_breach(holding: bool, indoor: bool, squad_recent_breach: bool) -> (res: bool)
    ensures
        res == (!holding && !indoor && !squad_recent_breach),
{
    !holding && !indoor && !squad_recent_breach
}

/// Whether a soldier throws its grenade into the building its squad
/// clears: two soldiers of three do (those whose id is not 2 modulo 3),
/// if they have a grenade.
pub fn throws_at_breach(soldier: usize, grenades: u8) -> (res: bool)
    ensures
        res == (soldier % 3 != 2 && grenades > 0),
{
    soldier % 3 != 2 && grenades > 0
}

/// How near, in meters, an objective must be for an eager soldier to
/// throw a grenade at it.
pub const ASSAULT_RANGE_M: i64 = 25;

/// How near an objective, in meters, an enemy must stand to be worth a
/// grenade.
pub const OBJECTIVE_GUARD_RANGE_M: i64 = 15;

/// Whether an eager soldier that holds no position throws a grenade at
/// the nearest objective its side does not hold: it may throw
/// (`ASSAULT_GRENADE_COOLDOWN`), the objective is within
/// `ASSAULT_RANGE_M`, and an enemy guards it.
pub fn assault_grenade(
    holding: bool,
    eager: bool,
    grenades: u8,
    frame: u64,
    last_grenade_frame: u64,
    nearest_objective_m: Option<i64>,
    enemy_guards_objective: bool,
) -> (res: bool)
    requires
        last_grenade_frame + ASSAULT_GRENADE_COOLDOWN <= u64::MAX,
    ensures
        res == (!holding && eager && grenades > 0 && frame > last_grenade_frame
            + ASSAULT_GRENADE_COOLDOWN && (nearest_objective_m matches Some(d) && d
            <= ASSAULT_RANGE_M) && enemy_guards_objective),
{
    if holding || !eager || !grenade_ready(grenades, frame, last_grenade_frame, ASSAULT_GRENADE_COOLDOWN) {
        return false;
    }
    match nearest_objective_m {
        Some(d) => d <= ASSAULT_RANGE_M && enemy_guards_objective,
        None => false,
    }
}

/// The fewest frames between picking up a grenade and throwing it.
pub const THROW_DELAY_MIN: u64 = 60;

/// The frames between picking up a grenade and throwing it are fewer than
/// this.
pub const THROW_DELAY_MAX: u64 = 90;

/// When a grenade picked up at `frame` leaves the hand: after a random
/// delay drawn from `THROW_DELAY_MIN..THROW_DELAY_MAX`.
pub fn throw_end(frame: u64) -> (res: u64)
    requires
        frame + THROW_DELAY_MAX <= u64::MAX,
    ensures
        frame + THROW_DELAY_MIN <= res < frame + THROW_DELAY_MAX,
{
    frame + random_in(THROW_DELAY_MIN, THROW_DELAY_MAX)
}

/// Frames between two flanking moves of a soldier.
pub const FLANK_PERIOD: u64 = 300;

/// Whether an enemy at `distance_m` meters is worth flanking: nearer
/// than sixty meters, farther than five.
pub fn flank_range(distance_m: i64) -> (res: bool)
    ensures
        res == (5 < distance_m && distance_m < 60),
{
    distance_m > 5 && distance_m < 60
}

/// The offset that spreads a periodic task over the frames: `key` picks
/// one of the `period / freq` slots of the period, each `freq` frames
/// apart.
pub open spec fn spec_stagger_offset(key: nat, period: nat, freq: nat) -> nat {
    ((key % (period / freq)) * freq) as nat
}

/// The offset of the slot that `key` picks in a period of `period`
/// frames whose tasks run every `freq` frames.
pub fn stagger_offset(key: u64, period: u64, freq: u64) -> (res: u64)
    requires
        0 < freq <= period,
    ensures
        res == spec_stagger_offset(key as nat, period as nat, freq as nat),
        res < period,
        res % freq == 0,
{
    let slots = period / freq;
    assert(slots >= 1) by (nonlinear_arith)
        requires
            slots == period / freq,
            0 < freq <= period,
    ;
    let slot = key % slots;
    proof {
        assert(slots * freq <= period) by (nonlinear_arith)
            requires
                slots == period / freq,
                freq > 0,
        ;
        assert(slot * freq < period) by (nonlinear_arith)
            requires
                slot < slots,
                slots * freq <= period,
                freq > 0,
        ;
        assert((slot * freq) % (freq as int) == 0) by {
            vstd::arithmetic::div_mod::lemma_mod_multiples_basic(slot as int, freq as int);
        }
    }
    slot * freq
}

/// Whether a task of period `period` shifted by `offset` runs at `frame`.
pub fn is_turn(frame: u64, offset: u64, period: u64) -> (res: bool)
    requires
        period > 0,
        frame + offset <= u64::MAX,
    ensures
        res == ((frame + offset) % (period as int) == 0),
{
    (frame + offset) % period == 0
}

/// A staggered task runs on frames where the tasks of its rhythm run:
/// when `freq` divides `period` and the offset is a multiple of `freq`,
/// every frame on which it runs is a multiple of `freq`.
pub proof fn lemma_turns_fall_on_ticks(frame: int, offset: int, period: int, freq: int)
    requires
        frame >= 0,
        offset >= 0,
        freq > 0,
        period > 0,
        period % freq == 0,
        offset % freq == 0,
        (frame + offset) % period == 0,
    ensures
        frame % freq == 0,
{
    let q = (frame + offset) / period;
    let r = period / freq;
    let m = offset / freq;
    vstd::arithmetic::div_mod::lemma_fundamental_div_mod(frame + offset, period);
    vstd::arithmetic::div_mod::lemma_fundamental_div_mod(period, freq);
    vstd::arithmetic::div_mod::lemma_fundamental_div_mod(offset, freq);
    let k = q * r - m;
    assert(frame == freq * k) by (nonlinear_arith)
        requires
            frame + offset == period * q,
            period == freq * r,
            offset == freq * m,
            k == q * r - m,
    ;
    assert(k >= 0) by (nonlinear_arith)
        requires
            frame == freq * k,
            freq > 0,
            frame >= 0,
    ;
    vstd::arithmetic::div_mod::lemma_mod_multiples_basic(k, freq);
    assert(k * freq == freq * k) by (nonlinear_arith);
}

/// A staggered task runs once per period: if it runs at `frame`, it runs
/// again `period` frames later and on no frame between.
pub proof fn lemma_one_turn_per_period(frame: int, offset: int, period: int, d: int)
    requires
        frame >= 0,
        offset >= 0,
        period > 0,
        (frame + offset) % period == 0,
    ensures
        (frame + period + offset) % period == 0,
        0 < d < period ==> (frame + d + offset) % period != 0,
{
    vstd::arithmetic::div_mod::lemma_fundamental_div_mod(frame + offset, period);
    let q = (frame + offset) / period;
    assert(frame + offset == period * q);
    vstd::arithmetic::div_mod::lemma_mod_multiples_vanish(q + 1, 0, period);
    assert(frame + period + offset == period * (q + 1) + 0) by (nonlinear_arith)
        requires
            frame + offset == period * q,
    ;
    vstd::arithmetic::div_mod::lemma_small_mod(0, period as nat);
    if 0 < d < period {
        assert(frame + d + offset == period * q + d);
        vstd::arithmetic::div_mod::lemma_mod_multiples_vanish(q, d, period);
        vstd::arithmetic::div_mod::lemma_small_mod(d as nat, period as nat);
    }
}

/// What a soldier does about its ammunition.
#[derive(Clone, Copy, Debug, PartialEq, Eq, Structural)]
pub enum AmmoAction {
    /// It has ammunition, or the rule does not apply: nothing changes.
    Carry,
    /// It is at its squad's checkpoint: it takes ammunition and grenades,
    /// calms down and reloads.
    Resupply,
    /// It runs back to its squad's checkpoint.
    FallBack,
    /// It has no way back: it lies down where it is.
    TakeCover,
}

/// How near, in meters, the checkpoint must be to resupply there.
pub const RESUPPLY_RANGE_M: i64 = 5;

/// How many frames a resupply takes.
pub const RESUPPLY_FRAMES: u64 = 180;

/// Whether a soldier has ammunition: it has a weapon that can fire or be
/// reloaded, or a magazine its weapon takes.
pub fn has_ammo(has_weapon: bool, can_fire: bool, can_reload: bool, has_fitting_magazine: bool)
    -> (res: bool)
    ensures
        res == (has_weapon && (can_fire || can_reload || has_fitting_magazine)),
{
    has_weapon && (can_fire || can_reload || has_fitting_magazine)
}

/// What a soldier fighting or waiting (`engaged`) does about its
/// ammunition: nothing while it has some; without, it resupplies at its
/// squad's checkpoint when within `RESUPPLY_RANGE_M`, else runs back when
/// a way there was found (`way_back`), else lies down, as it does when
/// its squad has no checkpoint.
pub fn ammo_action(engaged: bool, has_ammo: bool, checkpoint_m: Option<i64>, way_back: bool)
    -> (res: AmmoAction)
    ensures
        res == (if !engaged || has_ammo {
            AmmoAction::Carry
        } else {
            match checkpoint_m {
                Some(d) => if d <= RESUPPLY_RANGE_M {
                    AmmoAction::Resupply
                } else if way_back {
                    AmmoAction::FallBack
                } else {
                    AmmoAction::TakeCover
                },
                None => AmmoAction::TakeCover,
            }
        }),
{
    if !engaged || has_ammo {
        return AmmoAction::Carry;
    }
    match checkpoint_m {
        Some(d) => {
            if d <= RESUPPLY_RANGE_M {
                AmmoAction::Resupply
            } else if way_back {
                AmmoAction::FallBack
            } else {
                AmmoAction::TakeCover
            }
        },
        None => AmmoAction::TakeCover,
    }
}

/// The frame at which a resupply started at `frame` ends.
pub fn resupply_end(frame: u64) -> (res: u64)
    requires
        frame + RESUPPLY_FRAMES <= u64::MAX,
    ensures
        res == frame + RESUPPLY_FRAMES,
{
    frame + RESUPPLY_FRAMES
}

/// What became of a soldier's promise of support.
#[derive(Clone, Copy, Debug, PartialEq, Eq, Structural)]
pub enum PromiseOutcome {
    /// No support was promised.
    NoPromise,
    /// Support arrived: the promise is cleared and the soldier moves on.
    Fulfilled,
    /// The promise ran out before support came.
    Expired,
    /// Support is still awaited.
    Waiting,
}

/// What becomes, at `frame`, of a promise of support that ends at
/// `promise_end` (0: none): fulfilled when support arrived, else expired
/// once its end is reached.
pub fn promise_outcome(promise_end: u64, support_arrived: bool, frame: u64) -> (res:
    PromiseOutcome)
    ensures
        res == (if promise_end == 0 {
            PromiseOutcome::NoPromise
        } else if support_arrived {
            PromiseOutcome::Fulfilled
        } else if frame >= promise_end {
            PromiseOutcome::Expired
        } else {
            PromiseOutcome::Waiting
        }),
{
    if promise_end == 0 {
        PromiseOutcome::NoPromise
    } else if support_arrived {
        PromiseOutcome::Fulfilled
    } else if frame >= promise_end {
        PromiseOutcome::Expired
    } else {
        PromiseOutcome::Waiting
    }
}

/// Whether a periodic task of frequency `freq` runs at `frame`; `battle`
/// tells whether it runs only during the battle phase and that phase is
/// on (`only_in_battle` is false for tasks that always run).
pub fn runs_at(frame: u64, freq: u64, only_in_battle: bool, in_battle: bool) -> (res: bool)
    requires
        freq > 0,
    ensures
        res == (frame % freq == 0 && (!only_in_battle || in_battle)),
{
    frame % freq == 0 && (!only_in_battle || in_battle)
}

/// Who takes over a squad: none while its leader can lead; else the first
/// subordinate, in the squad's order, that can lead (alive and fit).
pub fn successor(leader_fit: bool, subordinates_fit: &Vec<bool>) -> (res: Option<usize>)
    ensures
        leader_fit ==> res is None,
        !leader_fit ==> match res {
            Some(i) => i < subordinates_fit@.len() && subordinates_fit@[i as int] && forall|j: int|
                0 <= j < i ==> !#[trigger] subordinates_fit@[j],
            None => forall|j: int|
                0 <= j < subordinates_fit@.len() ==> !#[trigger] subordinates_fit@[j],
        },
{
    if leader_fit {
        return None;
    }
    let mut i: usize = 0;
    while i < subordinates_fit.len()
        invariant
            !leader_fit,
            i <= subordinates_fit@.len(),
            forall|j: int| 0 <= j < i ==> !#[trigger] subordinates_fit@[j],
        decreases subordinates_fit@.len() - i,
    {
        if subordinates_fit[i] {
            return Some(i);
        }
        i = i + 1;
    }
    None
}

/// How near, in meters, soldiers count as taking part in a squad's fight.
pub const FIGHT_RANGE_M: i64 = 40;

/// Whether a fighting squad calls for help: more enemies than friends
/// around its leader, and at least one friend.
pub fn outnumbered(allies: usize, enemies: usize) -> (res: bool)
    ensures
        res == (enemies > allies && allies > 0),
{
    enemies > allies && allies > 0
}

/// How many of the first `n` soldiers, at `distances_m` meters, whose
/// side `friendly` tells, are on side `side` and within `FIGHT_RANGE_M`.
pub open spec fn count_near(distances_m: Seq<i64>, friendly: Seq<bool>, side: bool, n: int) -> nat
    decreases n,
{
    if n <= 0 {
        0
    } else {
        count_near(distances_m, friendly, side, n - 1) + if distances_m[n - 1] <= FIGHT_RANGE_M
            && friendly[n - 1] == side {
            1nat
        } else {
            0nat
        }
    }
}

/// How many soldiers, among those at `distances_m` meters whose side
/// `friendly` tells, stand within `FIGHT_RANGE_M`: friends, then enemies.
pub fn count_around(distances_m: &Vec<i64>, friendly: &Vec<bool>) -> (res: (usize, usize))
    requires
        distances_m@.len() == friendly@.len(),
    ensures
        res.0 == count_near(distances_m@, friendly@, true, distances_m@.len() as int),
        res.1 == count_near(distances_m@, friendly@, false, distances_m@.len() as int),
{
    let mut allies: usize = 0;
    let mut enemies: usize = 0;
    let mut i: usize = 0;
    while i < distances_m.len()
        invariant
            i <= distances_m@.len(),
            distances_m@.len() == friendly@.len(),
            allies == count_near(distances_m@, friendly@, true, i as int),
            enemies == count_near(distances_m@, friendly@, false, i as int),
            allies + enemies <= i,
        decreases distances_m@.len() - i,
    {
        if distances_m[i] <= FIGHT_RANGE_M {
            if friendly[i] {
                allies = allies + 1;
            } else {
                enemies = enemies + 1;
            }
        }
        i = i + 1;
    }
    (allies, enemies)
}

/// How near an enemy may stand, in meters, to a squad that leaves to help.
pub const RESERVE_SAFETY_M: i64 = 20;

/// How far, in meters, from the fight a squad that fills the gap must be.
pub const BACKFILL_DEPTH_M: i64 = 25;

/// Whether a squad can leave to help another: it is not the squad in
/// need nor already sent, its leader is alive and of the same side, it is
/// idle, defending or hiding, and no enemy is within `RESERVE_SAFETY_M`.
pub fn reserve_available(
    is_requester: bool,
    already_sent: bool,
    leader_alive: bool,
    same_side: bool,
    order: OrderKind,
    enemy_near: bool,
) -> (res: bool)
    ensures
        res == (!is_requester && !already_sent && leader_alive && same_side && (order
            == OrderKind::Idle || spec_holds_position(order)) && !enemy_near),
{
    !is_requester && !already_sent && leader_alive && same_side && (order == OrderKind::Idle
        || holds_position(order)) && !enemy_near
}

} // verus!
