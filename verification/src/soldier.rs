//! The state of a soldier that the rules of the battle read and change:
//! who it is, what it does, whether it lives, its grenades and the frames
//! of its last shots, hides and grenades. Its position, heading, weapon
//! and magazines are kept by the game beside it.

use vstd::prelude::*;
use crate::doctrine::OrderKind;
use crate::tally::Side;

verus! {

/// How a soldier holds its body.
#[derive(Clone, Copy, Debug, PartialEq, Eq, Structural)]
pub enum Body {
    StandUp,
    Crouched,
    Lying,
}

/// What a soldier does; where it goes or aims is kept by the game.
#[derive(Clone, Copy, Debug, PartialEq, Eq, Structural)]
pub enum BehaviorKind {
    Idle(Body),
    MoveTo,
    MoveFastTo,
    SneakTo,
    Defend,
    Hide,
    ScatterToCover,
    GatherToCover,
    DriveTo,
    RotateTo,
    Dead,
    Unconscious,
    SuppressFire,
    /// Fires at the soldier of this index.
    EngageSoldier(usize),
    /// Is off the map until this frame.
    OffMapTransit(u64),
}

/// How a soldier is drawn.
#[derive(Clone, Copy, Debug, PartialEq, Eq, Structural)]
pub enum SoldierAnimationType {
    Idle,
    Walking,
    Crawling,
    LyingDown,
    DeadWithSideBlood,
}

/// The body a behavior puts a soldier in.
pub open spec fn spec_body(b: BehaviorKind) -> Body {
    match b {
        BehaviorKind::MoveTo | BehaviorKind::MoveFastTo | BehaviorKind::OffMapTransit(_) => Body::StandUp,
        BehaviorKind::DriveTo | BehaviorKind::RotateTo => Body::Crouched,
        BehaviorKind::Idle(body) => body,
        _ => Body::Lying,
    }
}

/// How a soldier with behavior `b` is drawn.
pub open spec fn spec_animation(b: BehaviorKind) -> SoldierAnimationType {
    match b {
        BehaviorKind::Idle(Body::Lying) | BehaviorKind::SneakTo => SoldierAnimationType::Crawling,
        BehaviorKind::Idle(_) | BehaviorKind::DriveTo | BehaviorKind::RotateTo
        | BehaviorKind::OffMapTransit(_) => SoldierAnimationType::Idle,
        BehaviorKind::MoveTo | BehaviorKind::MoveFastTo => SoldierAnimationType::Walking,
        BehaviorKind::Dead => SoldierAnimationType::DeadWithSideBlood,
        _ => SoldierAnimationType::LyingDown,
    }
}

/// Whether a behavior keeps the soldier down in cover: hiding, defending,
/// or scattering or gathering to cover.
pub open spec fn spec_takes_cover(b: BehaviorKind) -> bool {
    b == BehaviorKind::Hide || b == BehaviorKind::Defend || b == BehaviorKind::ScatterToCover
        || b == BehaviorKind::GatherToCover
}

/// The classes of weapon a soldier carries.
#[derive(Clone, Copy, Debug, PartialEq, Eq, Structural)]
pub enum WeaponClass {
    Main,
}

/// A change that the battle brings to a soldier.
#[derive(Clone, Copy, Debug, PartialEq, Eq, Structural)]
pub enum SoldierEvent {
    SetBehavior(BehaviorKind),
    SetOrder(OrderKind),
    SetAlive(bool),
    SetUnconscious(bool),
    /// The soldier comes under fire (its stress is raised by the game).
    UnderFire,
    SetLastShootFrameI(u64),
    SetLastShotFrameI(u64),
    /// Support is promised for this many frames.
    PromiseSupport(u64),
    /// The promise of support is checked.
    CheckSupportPromise,
    /// The promised support arrived.
    ClearSupportPromise,
    ConsumeGrenade,
    SetLastGrenadeFrameI(u64),
    /// A resupply; the flag tells whether the soldier has a weapon.
    ReplenishAmmunition(bool),
}

/// What the game must do after a change: nothing, draw the soldier
/// anew, or ease or raise its stress by the amount given.
#[derive(Clone, Copy, Debug, PartialEq, Eq, Structural)]
pub enum Aftermath {
    Nothing,
    RefreshAnimation,
    EaseStress(u32),
    RaiseStress(u32),
}

/// How much stress a promise of support takes away.
pub const PROMISE_RELIEF: u32 = 100;

/// How much stress a broken promise of support adds.
pub const BROKEN_PROMISE_STRESS: u32 = 200;

/// The state of soldier `s` after `event` at frame `frame`, and what the
/// game must do after it.
pub open spec fn spec_react(s: SoldierView, event: SoldierEvent, frame: nat) -> (SoldierView, Aftermath) {
    match event {
        SoldierEvent::SetBehavior(b) => (
            SoldierView {
                behavior: b,
                last_hide_frame_i: if spec_takes_cover(b) && !spec_takes_cover(s.behavior) {
                    frame
                } else {
                    s.last_hide_frame_i
                },
                ..s
            },
            Aftermath::RefreshAnimation,
        ),
        SoldierEvent::SetOrder(o) => (SoldierView { order: o, ..s }, Aftermath::Nothing),
        SoldierEvent::SetAlive(v) => (SoldierView { alive: v, ..s }, Aftermath::Nothing),
        SoldierEvent::SetUnconscious(v) => (SoldierView { unconscious: v, ..s }, Aftermath::Nothing),
        SoldierEvent::UnderFire => (SoldierView { last_shot_frame_i: frame, ..s }, Aftermath::Nothing),
        SoldierEvent::SetLastShootFrameI(f) => (
            SoldierView { last_shoot_frame_i: f as nat, ..s },
            Aftermath::Nothing,
        ),
        SoldierEvent::SetLastShotFrameI(f) => (
            SoldierView { last_shot_frame_i: f as nat, ..s },
            Aftermath::Nothing,
        ),
        SoldierEvent::PromiseSupport(d) => (
            SoldierView { support_promise_end_frame_i: (frame + d) as nat, ..s },
            Aftermath::EaseStress(PROMISE_RELIEF),
        ),
        SoldierEvent::CheckSupportPromise => if s.support_promise_end_frame_i > 0 && frame
            >= s.support_promise_end_frame_i {
            (
                SoldierView { support_promise_end_frame_i: 0, ..s },
                Aftermath::RaiseStress(BROKEN_PROMISE_STRESS),
            )
        } else {
            (s, Aftermath::Nothing)
        },
        SoldierEvent::ClearSupportPromise => (
            SoldierView { support_promise_end_frame_i: 0, ..s },
            Aftermath::Nothing,
        ),
        SoldierEvent::ConsumeGrenade => (
            SoldierView {
                grenades: if s.grenades > 0 {
                    (s.grenades - 1) as nat
                } else {
                    0
                },
                ..s
            },
            Aftermath::Nothing,
        ),
        SoldierEvent::SetLastGrenadeFrameI(f) => (
            SoldierView { last_grenade_frame_i: f as nat, ..s },
            Aftermath::Nothing,
        ),
        SoldierEvent::ReplenishAmmunition(has_weapon) => (
            if has_weapon {
                SoldierView { grenades: RESUPPLY_GRENADES as nat, ..s }
            } else {
                s
            },
            Aftermath::Nothing,
        ),
    }
}

/// The state of a soldier, as mathematical values.
pub struct SoldierView {
    pub uuid: nat,
    pub squad_uuid: nat,
    pub side: Side,
    pub order: OrderKind,
    pub behavior: BehaviorKind,
    pub alive: bool,
    pub unconscious: bool,
    pub last_shoot_frame_i: nat,
    pub last_shot_frame_i: nat,
    pub support_promise_end_frame_i: nat,
    pub grenades: nat,
    pub last_grenade_frame_i: nat,
    pub last_hide_frame_i: nat,
}

/// The state of a soldier that the rules read and change.
#[derive(Clone, Copy, Debug)]
pub struct Soldier {
    uuid: usize,
    squad_uuid: usize,
    side: Side,
    order: OrderKind,
    behavior: BehaviorKind,
    alive: bool,
    unconscious: bool,
    last_shoot_frame_i: u64,
    last_shot_frame_i: u64,
    support_promise_end_frame_i: u64,
    grenades: u8,
    last_grenade_frame_i: u64,
    last_hide_frame_i: u64,
}

impl View for Soldier {
    type V = SoldierView;

    closed spec fn view(&self) -> SoldierView {
        SoldierView {
            uuid: self.uuid as nat,
            squad_uuid: self.squad_uuid as nat,
            side: self.side,
            order: self.order,
            behavior: self.behavior,
            alive: self.alive,
            unconscious: self.unconscious,
            last_shoot_frame_i: self.last_shoot_frame_i as nat,
            last_shot_frame_i: self.last_shot_frame_i as nat,
            support_promise_end_frame_i: self.support_promise_end_frame_i as nat,
            grenades: self.grenades as nat,
            last_grenade_frame_i: self.last_grenade_frame_i as nat,
            last_hide_frame_i: self.last_hide_frame_i as nat,
        }
    }
}

/// Whether a soldier in state `s` acts: alive, conscious and on the map.
pub open spec fn spec_can_act(s: SoldierView) -> bool {
    s.alive && !s.unconscious && !(s.behavior is OffMapTransit)
}

/// Whether a soldier in state `s` can be hurt or shaken: alive and on
/// the map.
pub open spec fn spec_can_feel(s: SoldierView) -> bool {
    s.alive && !(s.behavior is OffMapTransit)
}

/// The grenades a soldier carries after a resupply.
pub const RESUPPLY_GRENADES: u8 = 3;

impl Soldier {
    /// A new soldier of squad `squad_uuid` on side `side`: idle,
    /// standing, alive and conscious, with `grenades` grenades, no promise
    /// of support, and every frame record at zero.
    pub fn new(uuid: usize, squad_uuid: usize, side: Side, grenades: u8) -> (res: Self)
        ensures
            res@ == (SoldierView {
                uuid: uuid as nat,
                squad_uuid: squad_uuid as nat,
                side: side,
                order: OrderKind::Idle,
                behavior: BehaviorKind::Idle(Body::StandUp),
                alive: true,
                unconscious: false,
                last_shoot_frame_i: 0,
                last_shot_frame_i: 0,
                support_promise_end_frame_i: 0,
                grenades: grenades as nat,
                last_grenade_frame_i: 0,
                last_hide_frame_i: 0,
            }),
    {
        Soldier {
            uuid,
            squad_uuid,
            side,
            order: OrderKind::Idle,
            behavior: BehaviorKind::Idle(Body::StandUp),
            alive: true,
            unconscious: false,
            last_shoot_frame_i: 0,
            last_shot_frame_i: 0,
            support_promise_end_frame_i: 0,
            grenades,
            last_grenade_frame_i: 0,
            last_hide_frame_i: 0,
        }
    }

    /// A fresh copy of `soldier`: a new soldier with its id, squad, side
    /// and grenades that keeps the frames of its last grenade and last hide.
    pub fn from_soldier(soldier: &Soldier) -> (res: Self)
        ensures
            res@ == (SoldierView {
                uuid: soldier@.uuid,
                squad_uuid: soldier@.squad_uuid,
                side: soldier@.side,
                order: OrderKind::Idle,
                behavior: BehaviorKind::Idle(Body::StandUp),
                alive: true,
                unconscious: false,
                last_shoot_frame_i: 0,
                last_shot_frame_i: 0,
                support_promise_end_frame_i: 0,
                grenades: soldier@.grenades,
                last_grenade_frame_i: soldier@.last_grenade_frame_i,
                last_hide_frame_i: soldier@.last_hide_frame_i,
            }),
    {
        let mut res = Soldier::new(soldier.uuid, soldier.squad_uuid, soldier.side, soldier.grenades);
        res.last_grenade_frame_i = soldier.last_grenade_frame_i;
        res.last_hide_frame_i = soldier.last_hide_frame_i;
        res
    }

    /// The soldier's index.
    pub fn uuid(&self) -> (res: usize)
        ensures
            res as nat == self@.uuid,
    {
        self.uuid
    }

    /// The soldier's side.
    pub fn side(&self) -> (res: Side)
        ensures
            res == self@.side,
    {
        self.side
    }

    /// The soldier's squad.
    pub fn squad_uuid(&self) -> (res: usize)
        ensures
            res as nat == self@.squad_uuid,
    {
        self.squad_uuid
    }

    /// Moves the soldier to squad `value`.
    pub fn set_squad_uuid(&mut self, value: usize)
        ensures
            final(self)@ == (SoldierView { squad_uuid: value as nat, ..old(self)@ }),
    {
        self.squad_uuid = value;
    }

    /// The order the soldier follows.
    pub fn order(&self) -> (res: OrderKind)
        ensures
            res == self@.order,
    {
        self.order
    }

    /// Gives the soldier the order `value`.
    pub fn set_order(&mut self, value: OrderKind)
        ensures
            final(self)@ == (SoldierView { order: value, ..old(self)@ }),
    {
        self.order = value;
    }

    /// What the soldier does.
    pub fn behavior(&self) -> (res: BehaviorKind)
        ensures
            res == self@.behavior,
    {
        self.behavior
    }

    /// Makes the soldier do `value`.
    pub fn set_behavior(&mut self, value: BehaviorKind)
        ensures
            final(self)@ == (SoldierView { behavior: value, ..old(self)@ }),
    {
        self.behavior = value;
    }

    /// Whether the soldier lives.
    pub fn alive(&self) -> (res: bool)
        ensures
            res == self@.alive,
    {
        self.alive
    }

    /// Records whether the soldier lives.
    pub fn set_alive(&mut self, value: bool)
        ensures
            final(self)@ == (SoldierView { alive: value, ..old(self)@ }),
    {
        self.alive = value;
    }

    /// Whether the soldier is unconscious.
    pub fn unconscious(&self) -> (res: bool)
        ensures
            res == self@.unconscious,
    {
        self.unconscious
    }

    /// Records whether the soldier is unconscious.
    pub fn set_unconscious(&mut self, value: bool)
        ensures
            final(self)@ == (SoldierView { unconscious: value, ..old(self)@ }),
    {
        self.unconscious = value;
    }

    /// The frame of the soldier's last shot.
    pub fn last_shoot_frame_i(&self) -> (res: u64)
        ensures
            res as nat == self@.last_shoot_frame_i,
    {
        self.last_shoot_frame_i
    }

    /// Records the frame of the soldier's last shot.
    pub fn set_last_shoot_frame_i(&mut self, value: u64)
        ensures
            final(self)@ == (SoldierView { last_shoot_frame_i: value as nat, ..old(self)@ }),
    {
        self.last_shoot_frame_i = value;
    }

    /// The frame at which the soldier was last shot at.
    pub fn last_shot_frame_i(&self) -> (res: u64)
        ensures
            res as nat == self@.last_shot_frame_i,
    {
        self.last_shot_frame_i
    }

    /// Records the frame at which the soldier was last shot at.
    pub fn set_last_shot_frame_i(&mut self, value: u64)
        ensures
            final(self)@ == (SoldierView { last_shot_frame_i: value as nat, ..old(self)@ }),
    {
        self.last_shot_frame_i = value;
    }

    /// The frame at which the support promised to the soldier ends (0: none).
    pub fn support_promise_end_frame_i(&self) -> (res: u64)
        ensures
            res as nat == self@.support_promise_end_frame_i,
    {
        self.support_promise_end_frame_i
    }

    /// Records the frame at which the support promised to the soldier
    /// ends (0: none).
    pub fn set_support_promise_end_frame_i(&mut self, value: u64)
        ensures
            final(self)@ == (SoldierView { support_promise_end_frame_i: value as nat, ..old(self)@ }),
    {
        self.support_promise_end_frame_i = value;
    }

    /// The soldier's grenades.
    pub fn grenades(&self) -> (res: u8)
        ensures
            res as nat == self@.grenades,
    {
        self.grenades
    }

    /// Sets how many grenades the soldier carries.
    pub fn set_grenades(&mut self, value: u8)
        ensures
            final(self)@ == (SoldierView { grenades: value as nat, ..old(self)@ }),
    {
        self.grenades = value;
    }

    /// The frame of the soldier's last grenade.
    pub fn last_grenade_frame_i(&self) -> (res: u64)
        ensures
            res as nat == self@.last_grenade_frame_i,
    {
        self.last_grenade_frame_i
    }

    /// Records the frame of the soldier's last grenade.
    pub fn set_last_grenade_frame_i(&mut self, value: u64)
        ensures
            final(self)@ == (SoldierView { last_grenade_frame_i: value as nat, ..old(self)@ }),
    {
        self.last_grenade_frame_i = value;
    }

    /// The frame at which the soldier last hid.
    pub fn last_hide_frame_i(&self) -> (res: u64)
        ensures
            res as nat == self@.last_hide_frame_i,
    {
        self.last_hide_frame_i
    }

    /// Records the frame at which the soldier last hid.
    pub fn set_last_hide_frame_i(&mut self, value: u64)
        ensures
            final(self)@ == (SoldierView { last_hide_frame_i: value as nat, ..old(self)@ }),
    {
        self.last_hide_frame_i = value;
    }

    /// Whether the soldier can be animated: alive, conscious, on the map.
    pub fn can_be_animated(&self) -> (res: bool)
        ensures
            res == spec_can_act(self@),
    {
        self.alive && !self.unconscious && !matches!(self.behavior, BehaviorKind::OffMapTransit(_))
    }

    /// Whether the soldier can lead its squad.
    pub fn can_be_leader(&self) -> (res: bool)
        ensures
            res == spec_can_act(self@),
    {
        self.alive && !self.unconscious && !matches!(self.behavior, BehaviorKind::OffMapTransit(_))
    }

    /// Whether the soldier counts for its side's morale: alive and
    /// conscious, off the map or not.
    pub fn can_be_count_for_morale(&self) -> (res: bool)
        ensures
            res == (self@.alive && !self@.unconscious),
    {
        self.alive && !self.unconscious
    }

    /// Whether the soldier can make sounds.
    pub fn can_produce_sound(&self) -> (res: bool)
        ensures
            res == spec_can_act(self@),
    {
        self.alive && !self.unconscious && !matches!(self.behavior, BehaviorKind::OffMapTransit(_))
    }

    /// Whether an explosion affects the soldier.
    pub fn can_feel_explosion(&self) -> (res: bool)
        ensures
            res == spec_can_feel(self@),
    {
        self.alive && !matches!(self.behavior, BehaviorKind::OffMapTransit(_))
    }

    /// Whether bullet fire affects the soldier.
    pub fn can_feel_bullet_fire(&self) -> (res: bool)
        ensures
            res == spec_can_feel(self@),
    {
        self.alive && !matches!(self.behavior, BehaviorKind::OffMapTransit(_))
    }

    /// Whether the soldier sees into buildings.
    pub fn can_see_interior(&self) -> (res: bool)
        ensures
            res == spec_can_act(self@),
    {
        self.alive && !self.unconscious && !matches!(self.behavior, BehaviorKind::OffMapTransit(_))
    }

    /// Whether the soldier can look for enemies.
    pub fn can_seek(&self) -> (res: bool)
        ensures
            res == spec_can_act(self@),
    {
        self.alive && !self.unconscious && !matches!(self.behavior, BehaviorKind::OffMapTransit(_))
    }

    /// Whether the soldier can be chosen as a target.
    pub fn can_be_designed_as_target(&self) -> (res: bool)
        ensures
            res == spec_can_act(self@),
    {
        self.alive && !self.unconscious && !matches!(self.behavior, BehaviorKind::OffMapTransit(_))
    }

    /// Whether the soldier can take a flag.
    pub fn can_take_flag(&self) -> (res: bool)
        ensures
            res == spec_can_act(self@),
    {
        self.can_be_animated()
    }

    /// The soldier it fires at, if it fires at one.
    pub fn target(&self) -> (res: Option<usize>)
        ensures
            res == (match self@.behavior {
                BehaviorKind::EngageSoldier(t) => Some(t),
                _ => None,
            }),
    {
        match self.behavior {
            BehaviorKind::EngageSoldier(t) => Some(t),
            _ => None,
        }
    }

    /// How the soldier holds its body.
    pub fn body(&self) -> (res: Body)
        ensures
            res == spec_body(self@.behavior),
    {
        match self.behavior {
            BehaviorKind::MoveTo | BehaviorKind::MoveFastTo | BehaviorKind::OffMapTransit(_) => {
                Body::StandUp
            },
            BehaviorKind::DriveTo | BehaviorKind::RotateTo => Body::Crouched,
            BehaviorKind::Idle(body) => body,
            _ => Body::Lying,
        }
    }

    /// How the soldier is drawn.
    pub fn animation_type(&self) -> (res: SoldierAnimationType)
        ensures
            res == spec_animation(self@.behavior),
    {
        match self.behavior {
            BehaviorKind::Idle(Body::Lying) | BehaviorKind::SneakTo => SoldierAnimationType::Crawling,
            BehaviorKind::Idle(_) | BehaviorKind::DriveTo | BehaviorKind::RotateTo
            | BehaviorKind::OffMapTransit(_) => SoldierAnimationType::Idle,
            BehaviorKind::MoveTo | BehaviorKind::MoveFastTo => SoldierAnimationType::Walking,
            BehaviorKind::Dead => SoldierAnimationType::DeadWithSideBlood,
            _ => SoldierAnimationType::LyingDown,
        }
    }

    /// Whether the soldier is down in cover.
    fn takes_cover(&self) -> (res: bool)
        ensures
            res == spec_takes_cover(self@.behavior),
    {
        match self.behavior {
            BehaviorKind::Hide | BehaviorKind::Defend | BehaviorKind::ScatterToCover
            | BehaviorKind::GatherToCover => true,
            _ => false,
        }
    }

    /// Applies `event` at frame `frame`: a new behavior records the frame
    /// at which the soldier went to cover, fire records the frame at
    /// which it was shot at, a promise of support ends `duration` frames
    /// later and eases its stress, a checked promise that ran out is
    /// dropped and raises its stress, a grenade is used up (never below
    /// none). Says what the game must do after.
    pub fn react(&mut self, event: SoldierEvent, frame: u64) -> (res: Aftermath)
        requires
            event matches SoldierEvent::PromiseSupport(d) ==> frame + d <= u64::MAX,
        ensures
            (final(self)@, res) == spec_react(old(self)@, event, frame as nat),
    {
        match event {
            SoldierEvent::SetBehavior(b) => {
                let was_in_cover = self.takes_cover();
                self.behavior = b;
                let now_in_cover = self.takes_cover();
                if now_in_cover && !was_in_cover {
                    self.last_hide_frame_i = frame;
                }
                Aftermath::RefreshAnimation
            },
            SoldierEvent::SetOrder(o) => {
                self.order = o;
                Aftermath::Nothing
            },
            SoldierEvent::SetAlive(v) => {
                self.alive = v;
                Aftermath::Nothing
            },
            SoldierEvent::SetUnconscious(v) => {
                self.unconscious = v;
                Aftermath::Nothing
            },
            SoldierEvent::UnderFire => {
                self.last_shot_frame_i = frame;
                Aftermath::Nothing
            },
            SoldierEvent::SetLastShootFrameI(f) => {
                self.last_shoot_frame_i = f;
                Aftermath::Nothing
            },
            SoldierEvent::SetLastShotFrameI(f) => {
                self.last_shot_frame_i = f;
                Aftermath::Nothing
            },
            SoldierEvent::PromiseSupport(d) => {
                self.support_promise_end_frame_i = frame + d;
                Aftermath::EaseStress(PROMISE_RELIEF)
            },
            SoldierEvent::CheckSupportPromise => {
                if self.support_promise_end_frame_i > 0 && frame >= self.support_promise_end_frame_i {
                    self.support_promise_end_frame_i = 0;
                    Aftermath::RaiseStress(BROKEN_PROMISE_STRESS)
                } else {
                    Aftermath::Nothing
                }
            },
            SoldierEvent::ClearSupportPromise => {
                self.support_promise_end_frame_i = 0;
                Aftermath::Nothing
            },
            SoldierEvent::ConsumeGrenade => {
                self.grenades = self.grenades.saturating_sub(1);
                Aftermath::Nothing
            },
            SoldierEvent::SetLastGrenadeFrameI(f) => {
                self.last_grenade_frame_i = f;
                Aftermath::Nothing
            },
            SoldierEvent::ReplenishAmmunition(has_weapon) => {
                self.replenish_ammunition(has_weapon);
                Aftermath::Nothing
            },
        }
    }

    /// Resupplies the soldier: one that has a weapon gets its grenades
    /// back (its magazines are refilled by the game beside); one without
    /// is left as it is.
    pub fn replenish_ammunition(&mut self, has_weapon: bool)
        ensures
            has_weapon ==> final(self)@ == (SoldierView {
                grenades: RESUPPLY_GRENADES as nat,
                ..old(self)@
            }),
            !has_weapon ==> final(self)@ == old(self)@,
    {
        if has_weapon {
            self.grenades = RESUPPLY_GRENADES;
        }
    }
}

/// A soldier that can act can also be hurt and counts for morale; one
/// that cannot be hurt cannot act.
pub proof fn lemma_abilities_nest(s: SoldierView)
    ensures
        spec_can_act(s) ==> spec_can_feel(s),
        spec_can_act(s) ==> s.alive && !s.unconscious,
        !s.alive ==> !spec_can_act(s) && !spec_can_feel(s),
{
}

/// A lying soldier is drawn crawling or lying down, a standing one
/// walking or idle; the dead are drawn dead.
pub proof fn lemma_animation_follows_body(b: BehaviorKind)
    ensures
        spec_body(b) == Body::StandUp ==> spec_animation(b) == SoldierAnimationType::Walking
            || spec_animation(b) == SoldierAnimationType::Idle,
        spec_body(b) == Body::Lying && b != BehaviorKind::Dead ==> spec_animation(b)
            == SoldierAnimationType::Crawling || spec_animation(b) == SoldierAnimationType::LyingDown,
        b == BehaviorKind::Dead ==> spec_animation(b) == SoldierAnimationType::DeadWithSideBlood,
{
}

/// The frame at which a soldier went to cover changes only when it goes
/// to cover from out of cover; a soldier that stays in cover keeps it.
pub proof fn lemma_cover_frame_kept(s: SoldierView, b: BehaviorKind, frame: nat)
    ensures
        spec_takes_cover(s.behavior) ==> spec_react(s, SoldierEvent::SetBehavior(b), frame).0.last_hide_frame_i
            == s.last_hide_frame_i,
        !spec_takes_cover(b) ==> spec_react(s, SoldierEvent::SetBehavior(b), frame).0.last_hide_frame_i
            == s.last_hide_frame_i,
{
}

/// A promise of support, once checked after its end, is gone and raises
/// the soldier's stress; checking again changes nothing more.
pub proof fn lemma_promise_breaks_once(s: SoldierView, frame: nat)
    requires
        s.support_promise_end_frame_i > 0,
        frame >= s.support_promise_end_frame_i,
    ensures
        spec_react(s, SoldierEvent::CheckSupportPromise, frame).1 == Aftermath::RaiseStress(
            BROKEN_PROMISE_STRESS,
        ),
        spec_react(spec_react(s, SoldierEvent::CheckSupportPromise, frame).0, SoldierEvent::CheckSupportPromise, frame)
            == (spec_react(s, SoldierEvent::CheckSupportPromise, frame).0, Aftermath::Nothing),
{
}

/// Using up grenades never leaves fewer than none, and a soldier with
/// none keeps none.
pub proof fn lemma_grenades_never_negative(s: SoldierView, frame: nat)
    ensures
        spec_react(s, SoldierEvent::ConsumeGrenade, frame).0.grenades + 1 >= s.grenades,
        s.grenades == 0 ==> spec_react(s, SoldierEvent::ConsumeGrenade, frame).0.grenades == 0,
{
}

} // verus!
