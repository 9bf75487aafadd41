//! The soldiers of a battle and their squads: who leads each squad, and
//! what happens to a squad whose leader is replaced: it joins another
//! squad of its side that still has a living leader, or, when there is
//! none, follows its new leader.

use vstd::prelude::*;
use crate::doctrine::OrderKind;
use crate::soldier::{spec_react, Aftermath, BehaviorKind, Body, Soldier, SoldierEvent, SoldierView};
use crate::tally::Side;

verus! {

/// A squad: its id, its leader and its members (soldier indices).
pub struct Squad {
    pub uuid: usize,
    pub leader: usize,
    pub members: Vec<usize>,
}

/// A squad, as mathematical values.
pub struct SquadView {
    pub uuid: usize,
    pub leader: usize,
    pub members: Seq<usize>,
}

/// The view of a squad.
pub open spec fn squad_view(q: Squad) -> SquadView {
    SquadView { uuid: q.uuid, leader: q.leader, members: q.members@ }
}

/// The views of a list of squads.
pub open spec fn squad_views(s: Seq<Squad>) -> Seq<SquadView> {
    s.map_values(|q: Squad| squad_view(q))
}

/// The views of a list of soldiers.
pub open spec fn soldier_views(s: Seq<Soldier>) -> Seq<SoldierView> {
    s.map_values(|x: Soldier| x@)
}

/// The soldiers and squads of a battle, as mathematical values.
pub struct RosterView {
    pub soldiers: Seq<SoldierView>,
    pub squads: Seq<SquadView>,
}

/// Whether no two squads of `squads` share an id.
pub open spec fn ids_distinct(squads: Seq<SquadView>) -> bool {
    forall|i: int, j: int| 0 <= i < j < squads.len() ==> (#[trigger] squads[i]).uuid != (
    #[trigger] squads[j]).uuid
}

/// Where the squad `uuid` stands among `squads`, if it is there.
pub open spec fn squad_position(squads: Seq<SquadView>, uuid: usize) -> Option<int> {
    if exists|i: int| 0 <= i < squads.len() && (#[trigger] squads[i]).uuid == uuid {
        Some(choose|i: int| 0 <= i < squads.len() && (#[trigger] squads[i]).uuid == uuid)
    } else {
        None
    }
}

/// What can be wrong with a battle's state: soldiers on board of
/// vehicles that do not hold together.
#[derive(Debug)]
pub enum BattleStateError {
    BoardIntegrity(String),
}

/// The soldiers and squads of a battle.
pub struct Roster {
    soldiers: Vec<Soldier>,
    squads: Vec<Squad>,
}

impl View for Roster {
    type V = RosterView;

    closed spec fn view(&self) -> RosterView {
        RosterView { soldiers: soldier_views(self.soldiers@), squads: squad_views(self.squads@) }
    }
}

/// A soldier told to stand by: idle order, standing idle.
pub open spec fn stood_down(s: SoldierView) -> SoldierView {
    SoldierView { order: OrderKind::Idle, behavior: BehaviorKind::Idle(Body::StandUp), ..s }
}

/// A soldier told to do as its leader does.
pub open spec fn following(s: SoldierView, order: OrderKind, behavior: BehaviorKind) -> SoldierView {
    SoldierView { order, behavior, ..s }
}

/// Whether soldier `k` is a living member of `members`.
pub open spec fn living_member(soldiers: Seq<SoldierView>, members: Seq<usize>, k: int) -> bool {
    0 <= k < soldiers.len() && members.contains(k as usize) && soldiers[k].alive
}

/// The soldiers once every living member of `members` stands by.
pub open spec fn stand_down(soldiers: Seq<SoldierView>, members: Seq<usize>) -> Seq<SoldierView> {
    Seq::new(
        soldiers.len(),
        |k: int|
            if living_member(soldiers, members, k) {
                stood_down(soldiers[k])
            } else {
                soldiers[k]
            },
    )
}

/// The side of a squad whose members are `members`: that of its first
/// member, or side A when it has none that exists.
pub open spec fn members_side(soldiers: Seq<SoldierView>, members: Seq<usize>) -> Side {
    if members.len() > 0 && members[0] < soldiers.len() {
        soldiers[members[0] as int].side
    } else {
        Side::A
    }
}

/// Whether squad `q` can take in the squad at `idx`: another squad whose
/// leader exists, lives, and is of side `side`.
pub open spec fn can_take_in(
    soldiers: Seq<SoldierView>,
    squads: Seq<SquadView>,
    idx: int,
    side: Side,
    j: int,
) -> bool {
    &&& j != idx
    &&& squads[j].leader < soldiers.len()
    &&& soldiers[squads[j].leader as int].alive
    &&& soldiers[squads[j].leader as int].side == side
}

/// The first squad, in roster order, that can take in the squad at `idx`.
#[verifier::opaque]
pub open spec fn host_of(soldiers: Seq<SoldierView>, squads: Seq<SquadView>, idx: int, side: Side) -> Option<
    int,
> {
    if exists|j: int|
        0 <= j < squads.len() && #[trigger] can_take_in(soldiers, squads, idx, side, j) && forall|t: int|
            0 <= t < j ==> !can_take_in(soldiers, squads, idx, side, t) {
        Some(
            choose|j: int|
                0 <= j < squads.len() && #[trigger] can_take_in(soldiers, squads, idx, side, j)
                    && forall|t: int| 0 <= t < j ==> !can_take_in(soldiers, squads, idx, side, t),
        )
    } else {
        None
    }
}

/// The members of a host squad `host` once the living members of
/// `incoming` not already there are added, in order.
pub open spec fn merged_members(soldiers: Seq<SoldierView>, host: Seq<usize>, incoming: Seq<usize>) -> Seq<
    usize,
>
    decreases incoming.len(),
{
    if incoming.len() == 0 {
        host
    } else {
        let m = incoming[0];
        let next = if m < soldiers.len() && soldiers[m as int].alive && !host.contains(m) {
            host.push(m)
        } else {
            host
        };
        merged_members(soldiers, next, incoming.drop_first())
    }
}

/// The roster once the squad at `idx`, whose living members stand by,
/// is taken in by the squad at `j`: its living members join that squad
/// and follow its leader, and it is dissolved.
#[verifier::opaque]
pub open spec fn absorbed(r: RosterView, idx: int, j: int) -> RosterView {
    let members = r.squads[idx].members;
    let calm = stand_down(r.soldiers, members);
    let host = r.squads[j];
    let chief = calm[host.leader as int];
    RosterView {
        soldiers: follow_all(calm, members, chief.order, chief.behavior, Some(host.uuid)),
        squads: r.squads.update(
            j,
            SquadView { members: merged_members(calm, host.members, members), ..host },
        ).remove(idx),
    }
}

/// The roster once soldier `leader` leads the squad at `idx`, whose
/// living members stand by and then do as `leader` does.
#[verifier::opaque]
pub open spec fn promoted(r: RosterView, idx: int, leader: usize) -> RosterView {
    let members = r.squads[idx].members;
    let calm = stand_down(r.soldiers, members);
    let chief = calm[leader as int];
    RosterView {
        soldiers: follow_all(calm, members, chief.order, chief.behavior, None),
        squads: r.squads.update(idx, SquadView { leader, ..r.squads[idx] }),
    }
}

/// The roster after the leader of squad `uuid` is replaced by soldier
/// `leader`. The squad's living members stand by; then, if another squad
/// of its side (that of its first member) has a living leader, the first
/// such squad takes in its living members, who follow that squad's
/// leader, and the squad is dissolved; else `leader` leads it and its
/// living members do as `leader` does. A squad that does not exist
/// changes nothing.
#[verifier::opaque]
pub open spec fn spec_replace_leader(r: RosterView, uuid: usize, leader: usize) -> RosterView {
    match squad_position(r.squads, uuid) {
        None => r,
        Some(idx) => {
            let members = r.squads[idx].members;
            match host_of(stand_down(r.soldiers, members), r.squads, idx, members_side(r.soldiers, members)) {
                Some(j) => absorbed(r, idx, j),
                None => promoted(r, idx, leader),
            }
        },
    }
}

/// Whether replacing the leader of squad `uuid` puts the new leader in
/// charge: the squad exists and no squad can take it in.
#[verifier::opaque]
pub open spec fn uses_new_leader(r: RosterView, uuid: usize) -> bool {
    match squad_position(r.squads, uuid) {
        None => false,
        Some(idx) => host_of(
            stand_down(r.soldiers, r.squads[idx].members),
            r.squads,
            idx,
            members_side(r.soldiers, r.squads[idx].members),
        ) is None,
    }
}

/// A copy of a list of ids.
pub(crate) fn copy_ids(v: &Vec<usize>) -> (res: Vec<usize>)
    ensures
        res@ == v@,
{
    let mut res: Vec<usize> = Vec::new();
    let mut i: usize = 0;
    while i < v.len()
        invariant
            i <= v@.len(),
            res@ == v@.take(i as int),
        decreases v@.len() - i,
    {
        res.push(v[i]);
        assert(v@.take(i as int + 1) =~= v@.take(i as int).push(v@[i as int]));
        i = i + 1;
    }
    assert(v@.take(v@.len() as int) =~= v@);
    res
}

/// Whether `x` is in `v`.
fn contains_id(v: &Vec<usize>, x: usize) -> (res: bool)
    ensures
        res == v@.contains(x),
{
    let mut i: usize = 0;
    while i < v.len()
        invariant
            i <= v@.len(),
            forall|k: int| 0 <= k < i ==> v@[k] != x,
        decreases v@.len() - i,
    {
        if v[i] == x {
            return true;
        }
        i = i + 1;
    }
    false
}

/// A list with `m` pushed holds what the list held and `m`.
proof fn lemma_push_contains(s: Seq<usize>, m: usize, x: usize)
    ensures
        s.push(m).contains(x) <==> (s.contains(x) || x == m),
{
    if s.push(m).contains(x) {
        let i = choose|i: int| 0 <= i < s.push(m).len() && s.push(m)[i] == x;
        if i < s.len() {
            assert(s[i] == x);
        }
    }
    if s.contains(x) {
        let i = choose|i: int| 0 <= i < s.len() && s[i] == x;
        assert(s.push(m)[i] == x);
    }
    if x == m {
        assert(s.push(m)[s.len() as int] == m);
    }
}

/// The soldiers once every living member of `members` stands by.
fn stand_down_members(soldiers: &mut Vec<Soldier>, members: &Vec<usize>)
    ensures
        soldier_views(final(soldiers)@) == stand_down(soldier_views(old(soldiers)@), members@),
{
    let ghost orig = soldier_views(soldiers@);
    let n = soldiers.len();
    let mut k: usize = 0;
    assert(soldier_views(soldiers@) =~= stand_down(orig, members@.take(0)));
    while k < members.len()
        invariant
            k <= members@.len(),
            n == soldiers@.len(),
            n == orig.len(),
            soldier_views(soldiers@) == stand_down(orig, members@.take(k as int)),
        decreases members@.len() - k,
    {
        let m = members[k];
        let ghost cur = soldier_views(soldiers@);
        if m < n && soldiers[m].alive() {
            let mut x = soldiers[m];
            x.set_order(OrderKind::Idle);
            x.set_behavior(BehaviorKind::Idle(Body::StandUp));
            soldiers.set(m, x);
        }
        proof {
            assert(members@.take(k as int + 1) =~= members@.take(k as int).push(m));
            assert forall|t: int| 0 <= t < n implies #[trigger] soldier_views(soldiers@)[t]
                == stand_down(orig, members@.take(k as int + 1))[t] by {
                lemma_push_contains(members@.take(k as int), m, t as usize);
                assert(cur[t] == stand_down(orig, members@.take(k as int))[t]);
            }
            assert(soldier_views(soldiers@) =~= stand_down(orig, members@.take(k as int + 1)));
        }
        k = k + 1;
    }
    assert(members@.take(members@.len() as int) =~= members@);
}

/// The soldiers once every living member of `members` does as a leader
/// under `order` and `behavior` does, and, when `squad` is given, joins
/// that squad.
pub open spec fn follow_all(
    soldiers: Seq<SoldierView>,
    members: Seq<usize>,
    order: OrderKind,
    behavior: BehaviorKind,
    squad: Option<usize>,
) -> Seq<SoldierView> {
    Seq::new(
        soldiers.len(),
        |t: int|
            if living_member(soldiers, members, t) {
                match squad {
                    Some(u) => SoldierView {
                        squad_uuid: u as nat,
                        ..following(soldiers[t], order, behavior)
                    },
                    None => following(soldiers[t], order, behavior),
                }
            } else {
                soldiers[t]
            },
    )
}

/// Makes every living member of `members` do as a leader under `order`
/// and `behavior` does, and join `squad` when given.
fn follow_members(
    soldiers: &mut Vec<Soldier>,
    members: &Vec<usize>,
    order: OrderKind,
    behavior: BehaviorKind,
    squad: Option<usize>,
)
    ensures
        soldier_views(final(soldiers)@) == follow_all(
            soldier_views(old(soldiers)@),
            members@,
            order,
            behavior,
            squad,
        ),
{
    let ghost orig = soldier_views(soldiers@);
    let n = soldiers.len();
    let mut k: usize = 0;
    assert(soldier_views(soldiers@) =~= follow_all(orig, members@.take(0), order, behavior, squad));
    while k < members.len()
        invariant
            k <= members@.len(),
            n == soldiers@.len(),
            n == orig.len(),
            soldier_views(soldiers@) == follow_all(orig, members@.take(k as int), order, behavior, squad),
        decreases members@.len() - k,
    {
        let m = members[k];
        let ghost cur = soldier_views(soldiers@);
        if m < n && soldiers[m].alive() {
            assert(cur[m as int].alive == orig[m as int].alive);
            let mut x = soldiers[m];
            match squad {
                Some(u) => x.set_squad_uuid(u),
                None => {},
            }
            x.set_order(order);
            x.set_behavior(behavior);
            soldiers.set(m, x);
        } else {
            proof {
                if m < n {
                    assert(cur[m as int].alive == orig[m as int].alive);
                }
            }
        }
        proof {
            assert(members@.take(k as int + 1) =~= members@.take(k as int).push(m));
            assert forall|t: int| 0 <= t < n implies #[trigger] soldier_views(soldiers@)[t]
                == follow_all(orig, members@.take(k as int + 1), order, behavior, squad)[t] by {
                lemma_push_contains(members@.take(k as int), m, t as usize);
                assert(cur[t] == follow_all(orig, members@.take(k as int), order, behavior, squad)[t]);
            }
            assert(soldier_views(soldiers@) =~= follow_all(
                orig,
                members@.take(k as int + 1),
                order,
                behavior,
                squad,
            ));
        }
        k = k + 1;
    }
    assert(members@.take(members@.len() as int) =~= members@);
}

/// The members of a host squad, `host`, once the living members of
/// `incoming` not already there are added, in order.
fn merge_members(soldiers: &Vec<Soldier>, host: &Vec<usize>, incoming: &Vec<usize>) -> (res: Vec<usize>)
    ensures
        res@ == merged_members(soldier_views(soldiers@), host@, incoming@),
{
    let ghost sv = soldier_views(soldiers@);
    let n = soldiers.len();
    let mut hm = copy_ids(host);
    let mut k: usize = 0;
    assert(incoming@.skip(0) =~= incoming@);
    while k < incoming.len()
        invariant
            k <= incoming@.len(),
            n == sv.len(),
            sv == soldier_views(soldiers@),
            merged_members(sv, host@, incoming@) == merged_members(sv, hm@, incoming@.skip(k as int)),
        decreases incoming@.len() - k,
    {
        let m = incoming[k];
        proof {
            assert(incoming@.skip(k as int)[0] == m);
            assert(incoming@.skip(k as int).drop_first() =~= incoming@.skip(k as int + 1));
        }
        if m < n && soldiers[m].alive() {
            assert(sv[m as int].alive);
            if !contains_id(&hm, m) {
                hm.push(m);
            }
        } else {
            proof {
                if m < n {
                    assert(!sv[m as int].alive);
                }
            }
        }
        k = k + 1;
    }
    assert(incoming@.skip(incoming@.len() as int) =~= Seq::<usize>::empty());
    hm
}

/// Lets the squad at `j` take in the squad at `idx`, whose members are
/// `members`.
fn absorb(soldiers: &mut Vec<Soldier>, squads: &mut Vec<Squad>, idx: usize, j: usize, members: &Vec<usize>)
    requires
        idx < old(squads)@.len(),
        j < old(squads)@.len(),
        members@ == squad_views(old(squads)@)[idx as int].members,
        squad_views(old(squads)@)[j as int].leader < old(soldiers)@.len(),
    ensures
        (RosterView { soldiers: soldier_views(final(soldiers)@), squads: squad_views(final(squads)@) })
            == absorbed(
            RosterView { soldiers: soldier_views(old(soldiers)@), squads: squad_views(old(squads)@) },
            idx as int,
            j as int,
        ),
{
    let ghost r = RosterView { soldiers: soldier_views(soldiers@), squads: squad_views(squads@) };
    stand_down_members(soldiers, members);
    let ghost calm = soldier_views(soldiers@);
    assert(calm.len() == r.soldiers.len());
    assert(soldiers@.len() == calm.len());
    let host_uuid = squads[j].uuid;
    let host_leader = squads[j].leader;
    assert(host_uuid == r.squads[j as int].uuid && host_leader == r.squads[j as int].leader);
    let chief = soldiers[host_leader];
    assert(calm[host_leader as int] == soldiers@[host_leader as int]@);
    let hm = merge_members(soldiers, &squads[j].members, members);
    follow_members(soldiers, members, chief.order(), chief.behavior(), Some(host_uuid));
    squads.set(j, Squad { uuid: host_uuid, leader: host_leader, members: hm });
    let ghost mid = squad_views(squads@);
    assert(mid =~= r.squads.update(
        j as int,
        SquadView { members: merged_members(calm, r.squads[j as int].members, members@), ..r.squads[j as int] },
    ));
    squads.remove(idx);
    assert(squad_views(squads@) =~= mid.remove(idx as int));
    reveal(absorbed);
}

/// Puts soldier `leader` at the head of the squad at `idx`, whose members
/// are `members`.
fn promote(soldiers: &mut Vec<Soldier>, squads: &mut Vec<Squad>, idx: usize, leader: usize, members: &Vec<usize>)
    requires
        idx < old(squads)@.len(),
        leader < old(soldiers)@.len(),
        members@ == squad_views(old(squads)@)[idx as int].members,
    ensures
        (RosterView { soldiers: soldier_views(final(soldiers)@), squads: squad_views(final(squads)@) })
            == promoted(
            RosterView { soldiers: soldier_views(old(soldiers)@), squads: squad_views(old(squads)@) },
            idx as int,
            leader,
        ),
{
    let ghost r = RosterView { soldiers: soldier_views(soldiers@), squads: squad_views(squads@) };
    stand_down_members(soldiers, members);
    let ghost calm = soldier_views(soldiers@);
    assert(calm.len() == r.soldiers.len());
    assert(soldiers@.len() == calm.len());
    let chief = soldiers[leader];
    assert(calm[leader as int] == soldiers@[leader as int]@);
    follow_members(soldiers, members, chief.order(), chief.behavior(), None);
    let uuid = squads[idx].uuid;
    let kept = copy_ids(members);
    squads.set(idx, Squad { uuid, leader, members: kept });
    assert(squad_views(squads@) =~= r.squads.update(idx as int, SquadView { leader, ..r.squads[idx as int] }));
    reveal(promoted);
}

/// Taking a squad in keeps the ids of the squads distinct.
proof fn lemma_absorb_keeps_ids(r: RosterView, idx: int, j: int)
    requires
        ids_distinct(r.squads),
        0 <= idx < r.squads.len(),
        0 <= j < r.squads.len(),
    ensures
        ids_distinct(absorbed(r, idx, j).squads),
{
    reveal(absorbed);
    let after = absorbed(r, idx, j).squads;
    assert forall|a: int, b: int| 0 <= a < b < after.len() implies (#[trigger] after[a]).uuid != (
    #[trigger] after[b]).uuid by {
        let aa = if a < idx {
            a
        } else {
            a + 1
        };
        let bb = if b < idx {
            b
        } else {
            b + 1
        };
        assert(after[a].uuid == r.squads[aa].uuid);
        assert(after[b].uuid == r.squads[bb].uuid);
        assert(r.squads[aa].uuid != r.squads[bb].uuid);
    }
}

/// Putting a new leader at the head of a squad keeps the ids distinct.
proof fn lemma_promote_keeps_ids(r: RosterView, idx: int, leader: usize)
    requires
        ids_distinct(r.squads),
        0 <= idx < r.squads.len(),
    ensures
        ids_distinct(promoted(r, idx, leader).squads),
{
    reveal(promoted);
    let after = promoted(r, idx, leader).squads;
    assert forall|a: int, b: int| 0 <= a < b < after.len() implies (#[trigger] after[a]).uuid != (
    #[trigger] after[b]).uuid by {
        assert(r.squads[a].uuid != r.squads[b].uuid);
    }
}

/// A host is a squad of the roster, not the squad taken in, whose leader
/// exists.
proof fn lemma_host_is_able(calm: Seq<SoldierView>, squads: Seq<SquadView>, idx: int, side: Side, j: int)
    requires
        host_of(calm, squads, idx, side) == Some(j),
    ensures
        0 <= j < squads.len(),
        j != idx,
        squads[j].leader < calm.len(),
{
    reveal(host_of);
}

/// Which of the two outcomes replacing a leader has, once the squad's
/// position and its host (if any) are known.
proof fn lemma_replace_cases(r: RosterView, uuid: usize, leader: usize, idx: int, host: Option<int>)
    requires
        squad_position(r.squads, uuid) == Some(idx),
        host == host_of(
            stand_down(r.soldiers, r.squads[idx].members),
            r.squads,
            idx,
            members_side(r.soldiers, r.squads[idx].members),
        ),
    ensures
        spec_replace_leader(r, uuid, leader) == match host {
            Some(j) => absorbed(r, idx, j),
            None => promoted(r, idx, leader),
        },
        uses_new_leader(r, uuid) == host is None,
{
    reveal(spec_replace_leader);
    reveal(uses_new_leader);
}

/// Where squad `uuid` stands among `squads`, whose ids are distinct.
fn position_in(squads: &Vec<Squad>, uuid: usize) -> (res: Option<usize>)
    requires
        ids_distinct(squad_views(squads@)),
    ensures
        match res {
            Some(i) => squad_position(squad_views(squads@), uuid) == Some(i as int),
            None => squad_position(squad_views(squads@), uuid) is None,
        },
{
    let ghost sv = squad_views(squads@);
    let mut i: usize = 0;
    while i < squads.len()
        invariant
            i <= squads@.len(),
            sv == squad_views(squads@),
            ids_distinct(sv),
            forall|k: int| 0 <= k < i ==> (#[trigger] sv[k]).uuid != uuid,
        decreases squads@.len() - i,
    {
        if squads[i].uuid == uuid {
            proof {
                assert(sv[i as int].uuid == uuid);
                let c = choose|c: int| 0 <= c < sv.len() && (#[trigger] sv[c]).uuid == uuid;
                if c != i {
                    if c < i {
                        assert(sv[c].uuid != sv[i as int].uuid);
                    } else {
                        assert(sv[i as int].uuid != sv[c].uuid);
                    }
                }
            }
            return Some(i);
        }
        i = i + 1;
    }
    None
}

/// The side of a squad whose members are `members`.
fn side_of_members(soldiers: &Vec<Soldier>, members: &Vec<usize>) -> (res: Side)
    ensures
        res == members_side(soldier_views(soldiers@), members@),
{
    if members.len() > 0 && members[0] < soldiers.len() {
        assert(soldier_views(soldiers@)[members@[0] as int] == soldiers@[members@[0] as int]@);
        soldiers[members[0]].side()
    } else {
        Side::A
    }
}

/// The first squad that can take in the squad at `idx` of side `side`,
/// once the members `members` of that squad stand by.
fn find_host(soldiers: &Vec<Soldier>, squads: &Vec<Squad>, idx: usize, side: Side, members: &Vec<usize>) -> (res:
    Option<usize>)
    ensures
        match res {
            Some(j) => host_of(
                stand_down(soldier_views(soldiers@), members@),
                squad_views(squads@),
                idx as int,
                side,
            ) == Some(j as int),
            None => host_of(
                stand_down(soldier_views(soldiers@), members@),
                squad_views(squads@),
                idx as int,
                side,
            ) is None,
        },
{
    let ghost calm = stand_down(soldier_views(soldiers@), members@);
    let ghost sq = squad_views(squads@);
    let n = soldiers.len();
    let mut j: usize = 0;
    while j < squads.len()
        invariant
            j <= squads@.len(),
            n == soldiers@.len(),
            calm == stand_down(soldier_views(soldiers@), members@),
            sq == squad_views(squads@),
            forall|t: int| 0 <= t < j ==> !#[trigger] can_take_in(calm, sq, idx as int, side, t),
        decreases squads@.len() - j,
    {
        let l = squads[j].leader;
        assert(sq[j as int].leader == l);
        if j != idx && l < n {
            let chief = soldiers[l];
            assert(calm[l as int].alive == chief@.alive && calm[l as int].side == chief@.side);
            if chief.alive() && chief.side() == side {
                proof {
                    reveal(host_of);
                    assert(can_take_in(calm, sq, idx as int, side, j as int));
                    assert(forall|t: int| 0 <= t < j ==> !can_take_in(calm, sq, idx as int, side, t));
                    let c = choose|c: int|
                        0 <= c < sq.len() && #[trigger] can_take_in(calm, sq, idx as int, side, c)
                            && forall|t: int| 0 <= t < c ==> !can_take_in(calm, sq, idx as int, side, t);
                    assert(0 <= c < sq.len() && can_take_in(calm, sq, idx as int, side, c)
                        && forall|t: int| 0 <= t < c ==> !can_take_in(calm, sq, idx as int, side, t));
                    if c < j {
                        assert(!can_take_in(calm, sq, idx as int, side, c));
                    } else if c > j {
                        assert(!can_take_in(calm, sq, idx as int, side, j as int));
                    }
                    assert(c == j);
                    assert(host_of(calm, sq, idx as int, side) == Some(j as int));
                }
                return Some(j);
            }
        }
        assert(!can_take_in(calm, sq, idx as int, side, j as int));
        j = j + 1;
    }
    proof {
        reveal(host_of);
    }
    None
}

/// Replaces the leader of squad `uuid` by soldier `leader` among the
/// soldiers and squads given.
fn replace_leader_in(soldiers: &mut Vec<Soldier>, squads: &mut Vec<Squad>, uuid: usize, leader: usize)
    requires
        ids_distinct(squad_views(old(squads)@)),
        uses_new_leader(
            RosterView { soldiers: soldier_views(old(soldiers)@), squads: squad_views(old(squads)@) },
            uuid,
        ) ==> leader < old(soldiers)@.len(),
    ensures
        (RosterView { soldiers: soldier_views(final(soldiers)@), squads: squad_views(final(squads)@) })
            == spec_replace_leader(
            RosterView { soldiers: soldier_views(old(soldiers)@), squads: squad_views(old(squads)@) },
            uuid,
            leader,
        ),
        ids_distinct(squad_views(final(squads)@)),
{
    let ghost r = RosterView { soldiers: soldier_views(soldiers@), squads: squad_views(squads@) };
    let idx = match position_in(squads, uuid) {
        Some(i) => i,
        None => {
            proof {
                reveal(spec_replace_leader);
            }
            return ;
        },
    };
    let members = copy_ids(&squads[idx].members);
    assert(members@ == r.squads[idx as int].members);
    let side = side_of_members(soldiers, &members);
    let host = find_host(soldiers, squads, idx, side, &members);
    proof {
        let h: Option<int> = match host {
            Some(j) => Some(j as int),
            None => None,
        };
        lemma_replace_cases(r, uuid, leader, idx as int, h);
    }
    match host {
        Some(j) => {
            proof {
                lemma_host_is_able(
                    stand_down(r.soldiers, members@),
                    r.squads,
                    idx as int,
                    side,
                    j as int,
                );
            }
            absorb(soldiers, squads, idx, j, &members);
            proof {
                lemma_absorb_keeps_ids(r, idx as int, j as int);
            }
        },
        None => {
            promote(soldiers, squads, idx, leader, &members);
            proof {
                lemma_promote_keeps_ids(r, idx as int, leader);
            }
        },
    }
}

/// Merging keeps the host's members first and in order, adds every living
/// incoming member, and never lists a soldier twice when the host did
/// not.
pub proof fn lemma_merge_members(soldiers: Seq<SoldierView>, host: Seq<usize>, incoming: Seq<usize>)
    ensures
        host.is_prefix_of(merged_members(soldiers, host, incoming)),
        forall|i: int|
            0 <= i < incoming.len() && incoming[i] < soldiers.len() && soldiers[incoming[i] as int].alive
                ==> merged_members(soldiers, host, incoming).contains(#[trigger] incoming[i]),
        host.no_duplicates() ==> merged_members(soldiers, host, incoming).no_duplicates(),
    decreases incoming.len(),
{
    if incoming.len() > 0 {
        let m = incoming[0];
        let next = if m < soldiers.len() && soldiers[m as int].alive && !host.contains(m) {
            host.push(m)
        } else {
            host
        };
        lemma_merge_members(soldiers, next, incoming.drop_first());
        let res = merged_members(soldiers, host, incoming);
        assert(res == merged_members(soldiers, next, incoming.drop_first()));
        assert(host.is_prefix_of(next));
        assert(host.is_prefix_of(res)) by {
            assert forall|k: int| 0 <= k < host.len() implies host[k] == res[k] by {
                assert(next[k] == host[k]);
            }
        }
        assert forall|i: int|
            0 <= i < incoming.len() && incoming[i] < soldiers.len() && soldiers[incoming[i] as int].alive
                implies res.contains(#[trigger] incoming[i]) by {
            if i == 0 {
                if host.contains(m) {
                    let k = choose|k: int| 0 <= k < host.len() && host[k] == m;
                    assert(res[k] == host[k]);
                } else {
                    assert(next[host.len() as int] == m);
                    assert(res[host.len() as int] == next[host.len() as int]);
                }
            } else {
                assert(incoming.drop_first()[i - 1] == incoming[i]);
            }
        }
        if host.no_duplicates() {
            assert(next.no_duplicates()) by {
                if m < soldiers.len() && soldiers[m as int].alive && !host.contains(m) {
                    assert forall|a: int, b: int| 0 <= a < next.len() && 0 <= b < next.len() && a != b
                        implies next[a] != next[b] by {
                        if a == host.len() as int {
                            assert(next[b] == host[b]);
                            if next[b] == m {
                                assert(host.contains(m));
                            }
                        } else if b == host.len() as int {
                            assert(next[a] == host[a]);
                            if next[a] == m {
                                assert(host.contains(m));
                            }
                        }
                    }
                }
            }
        }
    }
}

/// When a squad is taken in, it disappears, the host keeps its id and
/// leader, and every living member of the squad ends up among the host's
/// members, following the host's leader.
pub proof fn lemma_absorbed_shape(r: RosterView, idx: int, j: int, m: int)
    requires
        0 <= idx < r.squads.len(),
        0 <= j < r.squads.len(),
        j != idx,
        r.squads[j].leader < r.soldiers.len(),
        r.soldiers.len() <= usize::MAX,
        living_member(r.soldiers, r.squads[idx].members, m),
    ensures
        absorbed(r, idx, j).squads.len() == r.squads.len() - 1,
        absorbed(r, idx, j).squads.contains(
            SquadView {
                members: merged_members(
                    stand_down(r.soldiers, r.squads[idx].members),
                    r.squads[j].members,
                    r.squads[idx].members,
                ),
                ..r.squads[j]
            },
        ),
        merged_members(
            stand_down(r.soldiers, r.squads[idx].members),
            r.squads[j].members,
            r.squads[idx].members,
        ).contains(m as usize),
        absorbed(r, idx, j).soldiers[m].squad_uuid == r.squads[j].uuid,
        absorbed(r, idx, j).soldiers[m].order == stand_down(r.soldiers, r.squads[idx].members)[r.squads[j].leader as int].order,
{
    reveal(absorbed);
    let members = r.squads[idx].members;
    let calm = stand_down(r.soldiers, members);
    let host = r.squads[j];
    let new_host = SquadView { members: merged_members(calm, host.members, members), ..host };
    let updated = r.squads.update(j, new_host);
    let after = updated.remove(idx);
    let jj = if j < idx {
        j
    } else {
        j - 1
    };
    assert(after[jj] == new_host);
    let i = choose|i: int| 0 <= i < members.len() && members[i] == m as usize;
    assert(calm[m].alive == r.soldiers[m].alive);
    lemma_merge_members(calm, host.members, members);
    assert(members[i] == m as usize);
    assert((m as usize) as int == m);
    assert(members[i] < calm.len() && calm[members[i] as int].alive);
    assert(living_member(calm, members, m));
}

/// Whether every squad's leader is a soldier of the roster.
pub open spec fn leaders_exist(r: RosterView) -> bool {
    forall|i: int| 0 <= i < r.squads.len() ==> (#[trigger] r.squads[i]).leader < r.soldiers.len()
}

/// The orders of the leaders of the first `n` squads whose side is
/// `side` (every squad for `Side::All`), each with its squad's id.
pub open spec fn orders_upto(r: RosterView, side: Side, n: int) -> Seq<(usize, OrderKind)>
    decreases n,
{
    if n <= 0 {
        Seq::empty()
    } else {
        let q = r.squads[n - 1];
        let leader = r.soldiers[q.leader as int];
        orders_upto(r, side, n - 1) + if side == Side::All || leader.side == side {
            seq![(q.uuid, leader.order)]
        } else {
            Seq::empty()
        }
    }
}

impl Roster {
    /// No two squads share an id.
    #[verifier::type_invariant]
    closed spec fn inv(self) -> bool {
        ids_distinct(squad_views(self.squads@))
    }

    /// A roster of `soldiers` without squads.
    pub fn new(soldiers: Vec<Soldier>) -> (res: Self)
        ensures
            res@.soldiers == soldier_views(soldiers@),
            res@.squads == Seq::<SquadView>::empty(),
    {
        let res = Roster { soldiers, squads: Vec::new() };
        assert(squad_views(res.squads@) =~= Seq::<SquadView>::empty());
        res
    }

    /// How many soldiers there are.
    pub fn soldier_count(&self) -> (res: usize)
        ensures
            res == self@.soldiers.len(),
    {
        self.soldiers.len()
    }

    /// How many squads there are.
    pub fn squad_count(&self) -> (res: usize)
        ensures
            res == self@.squads.len(),
    {
        self.squads.len()
    }

    /// The soldier of index `i`.
    pub fn soldier(&self, i: usize) -> (res: Soldier)
        requires
            i < self@.soldiers.len(),
        ensures
            res@ == self@.soldiers[i as int],
    {
        self.soldiers[i]
    }

    /// The squad at position `i`: its id, its leader and its members.
    pub fn squad_at(&self, i: usize) -> (res: (usize, usize, Vec<usize>))
        requires
            i < self@.squads.len(),
        ensures
            res.0 == self@.squads[i as int].uuid,
            res.1 == self@.squads[i as int].leader,
            res.2@ == self@.squads[i as int].members,
    {
        (self.squads[i].uuid, self.squads[i].leader, copy_ids(&self.squads[i].members))
    }

    /// Where squad `uuid` stands, if it is there.
    pub fn position(&self, uuid: usize) -> (res: Option<usize>)
        ensures
            match res {
                Some(i) => squad_position(self@.squads, uuid) == Some(i as int),
                None => squad_position(self@.squads, uuid) is None,
            },
    {
        proof {
            use_type_invariant(self);
        }
        position_in(&self.squads, uuid)
    }

    /// Whether soldier `i` leads its squad.
    pub fn soldier_is_squad_leader(&self, i: usize) -> (res: bool)
        requires
            i < self@.soldiers.len(),
            squad_position(self@.squads, self@.soldiers[i as int].squad_uuid as usize) is Some,
            self@.soldiers[i as int].squad_uuid <= usize::MAX,
        ensures
            res == (self@.squads[squad_position(
                self@.squads,
                self@.soldiers[i as int].squad_uuid as usize,
            )->0].leader == i),
    {
        let sq = self.soldiers[i].squad_uuid();
        match self.position(sq) {
            Some(p) => self.squads[p].leader == i,
            None => false,
        }
    }

    /// Records `squad`: it replaces the squad of the same id, or comes
    /// last when there is none.
    pub fn set_squad(&mut self, squad: Squad)
        ensures
            match squad_position(old(self)@.squads, squad.uuid) {
                Some(i) => final(self)@.squads == old(self)@.squads.update(i, squad_view(squad)),
                None => final(self)@.squads == old(self)@.squads.push(squad_view(squad)),
            },
            final(self)@.soldiers == old(self)@.soldiers,
    {
        proof {
            use_type_invariant(&*self);
        }
        let ghost before = squad_views(self.squads@);
        let uuid = squad.uuid;
        let ghost sv = squad_view(squad);
        let pos = self.position(uuid);
        let mut squads: Vec<Squad> = Vec::new();
        std::mem::swap(&mut squads, &mut self.squads);
        assert(squad_views(squads@) == before);
        match pos {
            Some(i) => {
                squads.set(i, squad);
                let ghost after = squad_views(squads@);
                proof {
                    assert(after =~= before.update(i as int, sv));
                    assert(before[i as int].uuid == uuid);
                    assert(ids_distinct(after)) by {
                        assert forall|a: int, b: int| 0 <= a < b < after.len() implies (
                        #[trigger] after[a]).uuid != (#[trigger] after[b]).uuid by {
                            assert(before[a].uuid != before[b].uuid);
                        }
                    }
                }
            },
            None => {
                squads.push(squad);
                let ghost after = squad_views(squads@);
                proof {
                    assert(after =~= before.push(sv));
                    assert(ids_distinct(after)) by {
                        assert forall|a: int, b: int| 0 <= a < b < after.len() implies (
                        #[trigger] after[a]).uuid != (#[trigger] after[b]).uuid by {
                            if b == before.len() {
                                assert(after[a] == before[a]);
                            } else {
                                assert(before[a].uuid != before[b].uuid);
                            }
                        }
                    }
                }
            },
        }
        self.squads = squads;
    }

    /// Whether replacing the leader of squad `uuid` puts the new leader in
    /// charge: the squad exists and no squad of its side can take it in.
    pub fn takes_new_leader(&self, uuid: usize) -> (res: bool)
        ensures
            res == uses_new_leader(self@, uuid),
    {
        proof {
            use_type_invariant(self);
            reveal(uses_new_leader);
        }
        match position_in(&self.squads, uuid) {
            None => false,
            Some(idx) => {
                let members = copy_ids(&self.squads[idx].members);
                let side = side_of_members(&self.soldiers, &members);
                find_host(&self.soldiers, &self.squads, idx, side, &members).is_none()
            },
        }
    }

    /// Replaces the leader of squad `uuid` by soldier `leader`: the
    /// squad's living members stand by; then the first squad of its side
    /// with a living leader takes them in (they follow its leader, and the
    /// squad is dissolved), or, when there is none, `leader` leads the
    /// squad and its living members do as `leader` does.
    pub fn replace_leader(&mut self, uuid: usize, leader: usize)
        requires
            uses_new_leader(old(self)@, uuid) ==> leader < old(self)@.soldiers.len(),
        ensures
            final(self)@ == spec_replace_leader(old(self)@, uuid, leader),
    {
        proof {
            use_type_invariant(&*self);
        }
        let mut soldiers: Vec<Soldier> = Vec::new();
        std::mem::swap(&mut soldiers, &mut self.soldiers);
        let mut squads: Vec<Squad> = Vec::new();
        std::mem::swap(&mut squads, &mut self.squads);
        replace_leader_in(&mut soldiers, &mut squads, uuid, leader);
        self.soldiers = soldiers;
        self.squads = squads;
    }

    /// The side of squad `uuid`: that of its leader.
    pub fn squad_side(&self, uuid: usize) -> (res: Side)
        requires
            squad_position(self@.squads, uuid) is Some,
            self@.squads[squad_position(self@.squads, uuid)->0].leader < self@.soldiers.len(),
        ensures
            res == self@.soldiers[self@.squads[squad_position(self@.squads, uuid)->0].leader as int].side,
    {
        match self.position(uuid) {
            Some(p) => {
                let l = self.squads[p].leader;
                assert(self@.soldiers[l as int] == self.soldiers@[l as int]@);
                self.soldiers[l].side()
            },
            None => Side::A,
        }
    }

    /// The orders of the squad leaders of side `side` (of every side for
    /// `Side::All`), each with its squad's id, in roster order.
    pub fn all_orders(&self, side: Side) -> (res: Vec<(usize, OrderKind)>)
        requires
            leaders_exist(self@),
        ensures
            res@ == orders_upto(self@, side, self@.squads.len() as int),
    {
        let mut res: Vec<(usize, OrderKind)> = Vec::new();
        let mut i: usize = 0;
        while i < self.squads.len()
            invariant
                i <= self@.squads.len(),
                leaders_exist(self@),
                res@ == orders_upto(self@, side, i as int),
            decreases self@.squads.len() - i,
        {
            let q = &self.squads[i];
            assert(self@.squads[i as int] == squad_view(*q));
            let l = q.leader;
            assert(l < self.soldiers@.len());
            let leader = self.soldiers[l];
            assert(self@.soldiers[l as int] == leader@);
            let mine = match side {
                Side::All => true,
                _ => leader.side() == side,
            };
            if mine {
                res.push((q.uuid, leader.order()));
            }
            i = i + 1;
        }
        res
    }

    /// Applies `event` at frame `frame` to soldier `i`; the others and the
    /// squads are left as they are. Says what the game must do after.
    pub fn react(&mut self, i: usize, event: SoldierEvent, frame: u64) -> (res: Aftermath)
        requires
            i < old(self)@.soldiers.len(),
            event matches SoldierEvent::PromiseSupport(d) ==> frame + d <= u64::MAX,
        ensures
            (final(self)@.soldiers[i as int], res) == spec_react(old(self)@.soldiers[i as int], event, frame as nat),
            final(self)@.soldiers == old(self)@.soldiers.update(i as int, final(self)@.soldiers[i as int]),
            final(self)@.squads == old(self)@.squads,
    {
        proof {
            use_type_invariant(&*self);
        }
        let ghost before = soldier_views(self.soldiers@);
        let mut soldiers: Vec<Soldier> = Vec::new();
        std::mem::swap(&mut soldiers, &mut self.soldiers);
        let mut x = soldiers[i];
        assert(x@ == before[i as int]);
        let res = x.react(event, frame);
        soldiers.set(i, x);
        assert(soldier_views(soldiers@) =~= before.update(i as int, x@));
        self.soldiers = soldiers;
        res
    }
}

} // verus!
