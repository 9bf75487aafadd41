//! Squads sent to support another: how an assignment goes on from tick to
//! tick, and when it ends, as the supporting squad or the squad it helps
//! fall, fight, move or run out of ammunition.

use vstd::prelude::*;

verus! {

/// Frames between two counts of a supporting squad's ammunition.
pub const SUPPORT_AMMO_CHECK_INTERVAL: u64 = 1800;

/// Frames after which a support assignment is over.
pub const SUPPORT_TIMEOUT: u64 = 3600;

/// Below this many rounds left in the whole supporting squad, suppressive
/// support stops.
pub const LOW_SQUAD_AMMO: u32 = 10;

/// Where a support assignment stands.
#[derive(Clone, Copy, Debug, PartialEq, Eq, Structural)]
pub enum SupportStatus {
    Moving,
    Engaged,
    Suppressing,
    Completed,
    Cancelled,
}

/// What the supporting squad's leader is doing.
#[derive(Clone, Copy, Debug, PartialEq, Eq, Structural)]
pub enum SupporterActivity {
    /// Laying suppressive fire.
    Suppressing,
    /// Engaging a soldier.
    Engaging,
    /// Moving, running or sneaking.
    Moving,
    /// Anything else.
    Other,
}

/// One support assignment on a tick, as plain values.
#[derive(Clone, Copy, Debug, PartialEq, Eq, Structural)]
pub struct SupportSituation {
    pub frame: u64,
    /// When the assignment was made.
    pub assigned_frame: u64,
    /// When the supporting leader's ammunition was last counted.
    pub last_ammo_check_frame: u64,
    /// The supporting squad's leader is alive.
    pub supporter_alive: bool,
    /// The supporting squad is resting after an earlier support.
    pub on_cooldown: bool,
    /// The rounds the supporting leader actually holds.
    pub actual_ammo: u32,
    /// The support rounds he has left, and the most he may have.
    pub remaining_ammo: u32,
    pub ammo_limit: u32,
    /// The helped squad's leader is alive.
    pub requester_alive: bool,
    /// The helped squad's leader engages or lays suppressive fire.
    pub requester_engaged: bool,
    pub activity: SupporterActivity,
    /// The support rounds left in the whole supporting squad.
    pub squad_ammo: u32,
}

/// What becomes of a support assignment on a tick.
#[derive(Clone, Copy, Debug, PartialEq, Eq, Structural)]
pub struct SupportUpdate {
    /// The assignment's new status, if it changes.
    pub status: Option<SupportStatus>,
    /// The support rounds the leader is set to have used, after a count
    /// that found fewer than recorded.
    pub ammo_used: Option<u32>,
    /// The ammunition was counted on this tick.
    pub ammo_counted: bool,
    /// The supporting squad is no longer busy supporting.
    pub released: bool,
    /// The supporting squad rests from this tick on.
    pub cooldown: bool,
    /// The assignment (and the request behind it) is removed.
    pub ended: bool,
    /// The supporting leader runs back to his squad's checkpoint.
    pub fall_back: bool,
}

/// What becomes of a support assignment on a tick:
/// - a fallen supporter cancels it, is released and rests;
/// - a resting supporter changes nothing;
/// - every `SUPPORT_AMMO_CHECK_INTERVAL` frames his ammunition is counted,
///   and what he used is set down when he holds fewer rounds than
///   recorded;
/// - out of support rounds, he cancels, is released, rests and runs back;
/// - when the helped leader fell or no longer fights, the assignment is
///   completed, and he is released and rests;
/// - otherwise its status follows what he does: suppressing (cancelled,
///   and released, when his squad has fewer than `LOW_SQUAD_AMMO` rounds
///   left), engaged or moving;
/// - after `SUPPORT_TIMEOUT` frames it is completed whatever he does, and
///   he is released and rests.
pub open spec fn spec_support_update(s: SupportSituation) -> SupportUpdate {
    let nothing = SupportUpdate {
        status: None,
        ammo_used: None,
        ammo_counted: false,
        released: false,
        cooldown: false,
        ended: false,
        fall_back: false,
    };
    if !s.supporter_alive {
        SupportUpdate {
            status: Some(SupportStatus::Cancelled),
            released: true,
            cooldown: true,
            ended: true,
            ..nothing
        }
    } else if s.on_cooldown {
        nothing
    } else {
        let counted = s.frame - s.last_ammo_check_frame >= SUPPORT_AMMO_CHECK_INTERVAL;
        let used = if counted && s.actual_ammo < s.remaining_ammo {
            Some((s.ammo_limit - s.actual_ammo) as u32)
        } else {
            None
        };
        let counts = SupportUpdate { ammo_used: used, ammo_counted: counted, ..nothing };
        if s.remaining_ammo == 0 {
            SupportUpdate {
                status: Some(SupportStatus::Cancelled),
                released: true,
                cooldown: true,
                ended: true,
                fall_back: true,
                ..counts
            }
        } else if !s.requester_alive || !s.requester_engaged {
            SupportUpdate {
                status: Some(SupportStatus::Completed),
                released: true,
                cooldown: true,
                ended: true,
                ..counts
            }
        } else if s.frame - s.assigned_frame > SUPPORT_TIMEOUT {
            SupportUpdate {
                status: Some(SupportStatus::Completed),
                released: true,
                cooldown: true,
                ended: true,
                ..counts
            }
        } else {
            match s.activity {
                SupporterActivity::Suppressing => if s.squad_ammo < LOW_SQUAD_AMMO {
                    SupportUpdate {
                        status: Some(SupportStatus::Cancelled),
                        released: true,
                        ended: true,
                        ..counts
                    }
                } else {
                    SupportUpdate { status: Some(SupportStatus::Suppressing), ..counts }
                },
                SupporterActivity::Engaging => SupportUpdate {
                    status: Some(SupportStatus::Engaged),
                    ..counts
                },
                SupporterActivity::Moving => SupportUpdate {
                    status: Some(SupportStatus::Moving),
                    ..counts
                },
                SupporterActivity::Other => counts,
            }
        }
    }
}

/// Whether the frames of a situation come in order and its rounds within
/// their limit.
pub open spec fn support_in_range(s: SupportSituation) -> bool {
    &&& s.last_ammo_check_frame <= s.frame
    &&& s.assigned_frame <= s.frame
    &&& s.remaining_ammo <= s.ammo_limit
}

/// What becomes of a support assignment on a tick; see
/// `spec_support_update`.
pub fn support_update(s: &SupportSituation) -> (res: SupportUpdate)
    requires
        s.supporter_alive && !s.on_cooldown ==> support_in_range(*s),
    ensures
        res == spec_support_update(*s),
{
    let nothing = SupportUpdate {
        status: None,
        ammo_used: None,
        ammo_counted: false,
        released: false,
        cooldown: false,
        ended: false,
        fall_back: false,
    };
    if !s.supporter_alive {
        return SupportUpdate {
            status: Some(SupportStatus::Cancelled),
            released: true,
            cooldown: true,
            ended: true,
            ..nothing
        };
    }
    if s.on_cooldown {
        return nothing;
    }
    let counted = s.frame - s.last_ammo_check_frame >= SUPPORT_AMMO_CHECK_INTERVAL;
    let used = if counted && s.actual_ammo < s.remaining_ammo {
        Some(s.ammo_limit - s.actual_ammo)
    } else {
        None
    };
    let counts = SupportUpdate { ammo_used: used, ammo_counted: counted, ..nothing };
    if s.remaining_ammo == 0 {
        SupportUpdate {
            status: Some(SupportStatus::Cancelled),
            released: true,
            cooldown: true,
            ended: true,
            fall_back: true,
            ..counts
        }
    } else if !s.requester_alive || !s.requester_engaged {
        SupportUpdate {
            status: Some(SupportStatus::Completed),
            released: true,
            cooldown: true,
            ended: true,
            ..counts
        }
    } else if s.frame - s.assigned_frame > SUPPORT_TIMEOUT {
        SupportUpdate {
            status: Some(SupportStatus::Completed),
            released: true,
            cooldown: true,
            ended: true,
            ..counts
        }
    } else {
        match s.activity {
            SupporterActivity::Suppressing => {
                if s.squad_ammo < LOW_SQUAD_AMMO {
                    SupportUpdate {
                        status: Some(SupportStatus::Cancelled),
                        released: true,
                        ended: true,
                        ..counts
                    }
                } else {
                    SupportUpdate { status: Some(SupportStatus::Suppressing), ..counts }
                }
            },
            SupporterActivity::Engaging => SupportUpdate {
                status: Some(SupportStatus::Engaged),
                ..counts
            },
            SupporterActivity::Moving => SupportUpdate {
                status: Some(SupportStatus::Moving),
                ..counts
            },
            SupporterActivity::Other => counts,
        }
    }
}

/// An assignment ends exactly when its supporting squad is released and
/// rests, except when a suppressing squad runs low on rounds: it is
/// released then, without rest. A resting squad's assignment never
/// changes.
pub proof fn lemma_support_release(s: SupportSituation)
    ensures
        spec_support_update(s).ended ==> spec_support_update(s).released,
        spec_support_update(s).cooldown ==> spec_support_update(s).ended,
        s.supporter_alive && s.on_cooldown ==> spec_support_update(s) == (SupportUpdate {
            status: None,
            ammo_used: None,
            ammo_counted: false,
            released: false,
            cooldown: false,
            ended: false,
            fall_back: false,
        }),
{
}

/// Each outcome of an assignment has its reason: it is cancelled only
/// when the supporter fell, ran out of rounds, or lays suppressive fire
/// with fewer than `LOW_SQUAD_AMMO` rounds left in his squad (and not
/// past the timeout); it is completed only when the helped leader fell or
/// stopped fighting, or after `SUPPORT_TIMEOUT` frames; the rounds used
/// are set down only after a count that found fewer than recorded, as the
/// limit less what he holds; and he runs back only when out of rounds.
pub proof fn lemma_support_reasons(s: SupportSituation)
    ensures
        spec_support_update(s).status == Some(SupportStatus::Cancelled) ==> !s.supporter_alive
            || s.remaining_ammo == 0 || (s.activity == SupporterActivity::Suppressing
            && s.squad_ammo < LOW_SQUAD_AMMO),
        spec_support_update(s).status == Some(SupportStatus::Completed) ==> s.supporter_alive
            && !s.on_cooldown && (!s.requester_alive || !s.requester_engaged || s.frame
            - s.assigned_frame > SUPPORT_TIMEOUT),
        spec_support_update(s).ammo_used matches Some(u) ==> s.frame - s.last_ammo_check_frame
            >= SUPPORT_AMMO_CHECK_INTERVAL && s.actual_ammo < s.remaining_ammo && (s.actual_ammo
            <= s.ammo_limit ==> u == s.ammo_limit - s.actual_ammo),
        spec_support_update(s).fall_back ==> s.supporter_alive && s.remaining_ammo == 0,
        spec_support_update(s).status == Some(SupportStatus::Engaged) ==> s.activity
            == SupporterActivity::Engaging,
        spec_support_update(s).status == Some(SupportStatus::Moving) ==> s.activity
            == SupporterActivity::Moving,
        spec_support_update(s).status == Some(SupportStatus::Suppressing) ==> s.activity
            == SupporterActivity::Suppressing && s.squad_ammo >= LOW_SQUAD_AMMO,
{
}

} // verus!
