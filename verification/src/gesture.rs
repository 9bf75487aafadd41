//! A soldier's gestures: which routine picks his next gesture, what a new
//! gesture sets off, and when his reloading, aiming and firing gestures
//! end. Each lasts a base time, what the weapon needs, a random human
//! delay, and longer under stress.

use vstd::prelude::*;
use crate::soldier::{BehaviorKind, WeaponClass};

verus! {

/// Frames simulated per second.
pub const TARGET_FPS: u64 = 60;

/// How a soldier feels under fire, as far as gesture timing is concerned.
#[derive(Clone, Copy, Debug, PartialEq, Eq, Structural)]
pub struct Stress {
    /// The soldier is in danger.
    pub is_danger: bool,
    /// The soldier's stress is at its maximum.
    pub is_max: bool,
}

/// A number drawn uniformly from `low..high` by the thread-local
/// generator (`rand::thread_rng` and `Rng::gen_range`); the range must not
/// be empty, else `gen_range` panics. Which number comes is left open.
#[verifier::external_body]
pub(crate) fn random_in(low: u64, high: u64) -> (res: u64)
    requires
        low < high,
    ensures
        low <= res < high,
{
    let mut rng = rand::thread_rng();
    rand::Rng::gen_range(&mut rng, low..high)
}

/// Frames added to a reload under maximal stress.
pub open spec fn reloading_stress_delay(stress: Stress) -> int {
    if stress.is_max { 60 } else { 0 }
}

/// Frames added to aiming under stress.
pub open spec fn aiming_stress_delay(stress: Stress) -> int {
    if stress.is_max { 40 } else if stress.is_danger { 20 } else { 0 }
}

/// Frames added after firing under stress.
pub open spec fn firing_stress_delay(stress: Stress) -> int {
    if stress.is_max { 30 } else if stress.is_danger { 15 } else { 0 }
}

/// A soldier that hides or lies down waits in ambush and aims faster.
pub open spec fn is_ambush(is_hiding: bool, is_lying: bool) -> bool {
    is_hiding || is_lying
}

/// The range of a soldier's reaction delay, in frames: short in ambush,
/// long when surprised on the move.
pub open spec fn reaction_range(ambush: bool) -> (int, int) {
    if ambush { (10, 30) } else { (45, 90) }
}

/// The frame a reload ends, for a random delay `jitter`.
pub open spec fn spec_reloading_end(frame_i: u64, stress: Stress, reloading_frames: u64, jitter: u64) -> int {
    frame_i + TARGET_FPS + reloading_frames + jitter + reloading_stress_delay(stress)
}

/// The frame aiming ends, for a reaction delay `reaction` and a random
/// delay `jitter`.
pub open spec fn spec_aiming_end(
    frame_i: u64,
    stress: Stress,
    is_hiding: bool,
    is_lying: bool,
    aiming_frames: u64,
    reaction: u64,
    jitter: u64,
) -> int {
    let ambush = is_ambush(is_hiding, is_lying);
    let base_delay = if ambush { TARGET_FPS / 2 } else { TARGET_FPS };
    let base_aiming = if ambush { aiming_frames / 2 } else { aiming_frames };
    frame_i + base_delay + base_aiming + reaction + jitter + aiming_stress_delay(stress)
}

/// The frame firing ends, for a random delay `jitter`.
pub open spec fn spec_firing_end(frame_i: u64, stress: Stress, firing_frames: u64, jitter: u64) -> int {
    frame_i + 5 + firing_frames + jitter + firing_stress_delay(stress)
}

/// The frame a reload ends, given the random delay `jitter` (below 50).
pub fn reloading_end_with(frame_i: u64, stress: Stress, reloading_frames: u64, jitter: u64) -> (res: u64)
    requires
        jitter < 50,
        spec_reloading_end(frame_i, stress, reloading_frames, jitter) <= u64::MAX,
    ensures
        res == spec_reloading_end(frame_i, stress, reloading_frames, jitter),
{
    let stress_delay: u64 = if stress.is_max { 60 } else { 0 };
    frame_i + TARGET_FPS + reloading_frames + jitter + stress_delay
}

/// The frame aiming ends, given the reaction delay `reaction` (in the
/// reaction range) and the random delay `jitter` (below 50).
pub fn aiming_end_with(
    frame_i: u64,
    stress: Stress,
    is_hiding: bool,
    is_lying: bool,
    aiming_frames: u64,
    reaction: u64,
    jitter: u64,
) -> (res: u64)
    requires
        jitter < 50,
        reaction < 90,
        spec_aiming_end(frame_i, stress, is_hiding, is_lying, aiming_frames, reaction, jitter)
            <= u64::MAX,
    ensures
        res == spec_aiming_end(frame_i, stress, is_hiding, is_lying, aiming_frames, reaction, jitter),
{
    let stress_delay: u64 = if stress.is_max { 40 } else if stress.is_danger { 20 } else { 0 };
    let ambush = is_hiding || is_lying;
    let base_aiming_frames = if ambush { aiming_frames / 2 } else { aiming_frames };
    let base_delay = if ambush { TARGET_FPS / 2 } else { TARGET_FPS };
    frame_i + base_delay + base_aiming_frames + reaction + jitter + stress_delay
}

/// The frame firing ends, given the random delay `jitter` (below 50).
pub fn firing_end_with(frame_i: u64, stress: Stress, firing_frames: u64, jitter: u64) -> (res: u64)
    requires
        jitter < 50,
        spec_firing_end(frame_i, stress, firing_frames, jitter) <= u64::MAX,
    ensures
        res == spec_firing_end(frame_i, stress, firing_frames, jitter),
{
    let stress_delay: u64 = if stress.is_max { 30 } else if stress.is_danger { 15 } else { 0 };
    frame_i + 5 + firing_frames + jitter + stress_delay
}

/// The frame a soldier's reload ends: one second, the weapon's reloading
/// time, a random delay of 0 to 49 frames, and a second more when panicked.
pub fn soldier_reloading_end(frame_i: u64, stress: Stress, reloading_frames: u64) -> (res: u64)
    requires
        frame_i + TARGET_FPS + reloading_frames + 49 + 60 <= u64::MAX,
    ensures
        exists|jitter: u64| jitter < 50 && res == spec_reloading_end(
            frame_i,
            stress,
            reloading_frames,
            jitter,
        ),
{
    let jitter = random_in(0, 50);
    reloading_end_with(frame_i, stress, reloading_frames, jitter)
}

/// The frame a soldier's aiming ends: a base time and half the weapon's
/// aiming time in ambush, a full second and the whole aiming time
/// otherwise, a reaction delay, a random delay of 0 to 49 frames and a
/// stress delay.
pub fn soldier_aiming_end(
    frame_i: u64,
    stress: Stress,
    is_hiding: bool,
    is_lying: bool,
    aiming_frames: u64,
) -> (res: u64)
    requires
        frame_i + TARGET_FPS + aiming_frames + 89 + 49 + 40 <= u64::MAX,
    ensures
        exists|reaction: u64, jitter: u64|
            reaction_range(is_ambush(is_hiding, is_lying)).0 <= reaction < reaction_range(
                is_ambush(is_hiding, is_lying),
            ).1 && jitter < 50 && res == spec_aiming_end(
                frame_i,
                stress,
                is_hiding,
                is_lying,
                aiming_frames,
                reaction,
                jitter,
            ),
{
    let ambush = is_hiding || is_lying;
    let reaction = if ambush { random_in(10, 30) } else { random_in(45, 90) };
    let jitter = random_in(0, 50);
    aiming_end_with(frame_i, stress, is_hiding, is_lying, aiming_frames, reaction, jitter)
}

/// The frame firing ends: five frames, the weapon's firing time, a random
/// delay of 0 to 49 frames and a stress delay.
pub fn soldier_firing_end(frame_i: u64, stress: Stress, firing_frames: u64) -> (res: u64)
    requires
        frame_i + 5 + firing_frames + 49 + 30 <= u64::MAX,
    ensures
        exists|jitter: u64| jitter < 50 && res == spec_firing_end(
            frame_i,
            stress,
            firing_frames,
            jitter,
        ),
{
    let jitter = random_in(0, 50);
    firing_end_with(frame_i, stress, firing_frames, jitter)
}

/// Waiting in ambush makes aiming faster: whatever reaction delays are
/// drawn in their ranges, a soldier in ambush is done aiming before one
/// who is not, for the same weapon, stress and random delay.
pub proof fn lemma_ambush_aims_faster(
    frame_i: u64,
    stress: Stress,
    aiming_frames: u64,
    ambush_reaction: u64,
    open_reaction: u64,
    jitter: u64,
)
    requires
        reaction_range(true).0 <= ambush_reaction < reaction_range(true).1,
        reaction_range(false).0 <= open_reaction < reaction_range(false).1,
    ensures
        spec_aiming_end(frame_i, stress, true, false, aiming_frames, ambush_reaction, jitter)
            < spec_aiming_end(frame_i, stress, false, false, aiming_frames, open_reaction, jitter),
{
}

/// More stress never ends a gesture sooner.
pub proof fn lemma_stress_delays_grow(calm: Stress, stressed: Stress)
    requires
        calm.is_max ==> stressed.is_max,
        calm.is_danger ==> stressed.is_danger || stressed.is_max,
    ensures
        reloading_stress_delay(calm) <= reloading_stress_delay(stressed),
        aiming_stress_delay(calm) <= aiming_stress_delay(stressed),
        firing_stress_delay(calm) <= firing_stress_delay(stressed),
{
}

/// What a soldier's hands are doing, with the frame at which it ends and
/// the weapon used; where a grenade goes is kept by the game.
#[derive(Clone, Copy, Debug, PartialEq, Eq, Structural)]
pub enum Gesture {
    Idle,
    Reloading(u64, WeaponClass),
    Aiming(u64, WeaponClass),
    Firing(u64, WeaponClass),
    Throwing(u64),
}

/// Why a gesture was taken: nothing in particular, or firing (at a point
/// and target that the game keeps).
#[derive(Clone, Copy, Debug, PartialEq, Eq, Structural)]
pub enum GestureContext {
    Idle,
    Firing,
}

/// A behaviour to fall back on when no gesture fits.
#[derive(Clone, Copy, Debug, PartialEq, Eq, Structural)]
pub struct FallbackBehavior(pub BehaviorKind);

/// What a gesture routine found: a gesture and why, or none, with maybe a
/// behaviour to fall back on.
#[derive(Clone, Copy, Debug, PartialEq, Eq, Structural)]
pub enum GestureResult {
    Handled(GestureContext, Gesture),
    Cant(Option<FallbackBehavior>),
}

/// Which routine picks a soldier's next gesture.
#[derive(Clone, Copy, Debug, PartialEq, Eq, Structural)]
pub enum GestureRoutine {
    /// None: a player steers him, or he is throwing a grenade.
    Keep,
    /// The gesture of an idle soldier.
    Idle,
    /// The gesture of a soldier laying suppressive fire.
    SuppressFire,
    /// The gesture of a soldier engaging the soldier of this index.
    EngageSoldier(usize),
    /// A moving soldier fires as he goes at an opponent within
    /// `MOVING_FIRE_RANGE_M` that he can fire at, else idles his hands.
    MoveAndShoot,
    /// His hands idle.
    Rest,
}

/// Which routine picks the next gesture of a soldier behaving as `b`.
pub open spec fn spec_gesture_routine(player_controlled: bool, current: Gesture, b: BehaviorKind) -> GestureRoutine {
    if player_controlled || current is Throwing {
        GestureRoutine::Keep
    } else {
        match b {
            BehaviorKind::Idle(_) => GestureRoutine::Idle,
            BehaviorKind::SuppressFire => GestureRoutine::SuppressFire,
            BehaviorKind::EngageSoldier(i) => GestureRoutine::EngageSoldier(i),
            BehaviorKind::MoveTo | BehaviorKind::MoveFastTo => GestureRoutine::MoveAndShoot,
            _ => GestureRoutine::Rest,
        }
    }
}

/// Which routine picks a soldier's next gesture; see
/// `spec_gesture_routine`.
pub fn gesture_routine(player_controlled: bool, current: Gesture, b: BehaviorKind) -> (res: GestureRoutine)
    ensures
        res == spec_gesture_routine(player_controlled, current, b),
{
    if player_controlled {
        return GestureRoutine::Keep;
    }
    if let Gesture::Throwing(_) = current {
        return GestureRoutine::Keep;
    }
    match b {
        BehaviorKind::Idle(_) => GestureRoutine::Idle,
        BehaviorKind::SuppressFire => GestureRoutine::SuppressFire,
        BehaviorKind::EngageSoldier(i) => GestureRoutine::EngageSoldier(i),
        BehaviorKind::MoveTo | BehaviorKind::MoveFastTo => GestureRoutine::MoveAndShoot,
        _ => GestureRoutine::Rest,
    }
}

/// A grenade throw is never cut short: while a soldier throws, no routine
/// picks another gesture for him.
pub proof fn lemma_throw_is_kept(player_controlled: bool, end: u64, b: BehaviorKind)
    ensures
        spec_gesture_routine(player_controlled, Gesture::Throwing(end), b) == GestureRoutine::Keep,
{
}

/// How near, in meters, an opponent must be for a moving soldier to fire
/// at him as he goes.
pub const MOVING_FIRE_RANGE_M: i64 = 50;

/// Whether a moving soldier fires as he goes: an opponent was found within
/// `MOVING_FIRE_RANGE_M` and he can fire at him (`able`).
pub fn fires_while_moving(opponent_m: Option<i64>, able: bool) -> (res: bool)
    ensures
        res == (opponent_m matches Some(d) && d <= MOVING_FIRE_RANGE_M && able),
{
    match opponent_m {
        Some(d) => d <= MOVING_FIRE_RANGE_M && able,
        None => false,
    }
}

/// What a new gesture sets off: nothing, reloading the weapon of a class,
/// or firing it.
#[derive(Clone, Copy, Debug, PartialEq, Eq, Structural)]
pub enum GestureEffect {
    Nothing,
    Reload(WeaponClass),
    Fire(WeaponClass),
}

/// What comes of a routine's result for a soldier whose gesture is
/// `current`.
#[derive(Clone, Copy, Debug, PartialEq, Eq, Structural)]
pub enum GestureOutcome {
    /// Nothing changes.
    Nothing,
    /// He takes the new gesture, which sets off `effect`.
    Change { gesture: Gesture, effect: GestureEffect },
    /// He falls back on this behaviour.
    Fallback(BehaviorKind),
}

/// What comes of `result` for a soldier whose gesture is `current`: a
/// handled gesture other than the current one is taken (reloading sets
/// off a reload, firing for a firing reason sets off the shot); a gesture
/// equal to the current one changes nothing; no gesture makes him fall
/// back on the behaviour given, if any.
pub open spec fn spec_settle_gesture(current: Gesture, result: GestureResult) -> GestureOutcome {
    match result {
        GestureResult::Handled(context, gesture) => if gesture == current {
            GestureOutcome::Nothing
        } else {
            GestureOutcome::Change {
                gesture,
                effect: match gesture {
                    Gesture::Reloading(_, c) => GestureEffect::Reload(c),
                    Gesture::Firing(_, c) => if context == GestureContext::Firing {
                        GestureEffect::Fire(c)
                    } else {
                        GestureEffect::Nothing
                    },
                    _ => GestureEffect::Nothing,
                },
            }
        },
        GestureResult::Cant(Some(FallbackBehavior(b))) => GestureOutcome::Fallback(b),
        GestureResult::Cant(None) => GestureOutcome::Nothing,
    }
}

/// What comes of a routine's result; see `spec_settle_gesture`.
pub fn settle_gesture(current: Gesture, result: GestureResult) -> (res: GestureOutcome)
    ensures
        res == spec_settle_gesture(current, result),
{
    match result {
        GestureResult::Handled(context, gesture) => {
            if gesture == current {
                GestureOutcome::Nothing
            } else {
                let effect = match gesture {
                    Gesture::Reloading(_, c) => GestureEffect::Reload(c),
                    Gesture::Firing(_, c) => {
                        if context == GestureContext::Firing {
                            GestureEffect::Fire(c)
                        } else {
                            GestureEffect::Nothing
                        }
                    },
                    _ => GestureEffect::Nothing,
                };
                GestureOutcome::Change { gesture, effect }
            }
        },
        GestureResult::Cant(Some(FallbackBehavior(b))) => GestureOutcome::Fallback(b),
        GestureResult::Cant(None) => GestureOutcome::Nothing,
    }
}

} // verus!
