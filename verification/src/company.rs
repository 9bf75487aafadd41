//! Companies: how the squads of a side are split into companies, how the
//! companies are named, and which squad of a company goes ahead as its
//! scout.

use vstd::prelude::*;
use vstd::relations::{sorted_by, total_ordering};
use vstd::string::StringExecFns;
use std::collections::HashSet;
use crate::tally::Side;

verus! {

broadcast use vstd::seq_lib::group_to_multiset_ensures;

/// How many companies `n` squads of a side make: three, or one per squad
/// when there are fewer.
pub open spec fn company_count(n: nat) -> nat {
    if n < 3 {
        n
    } else {
        3
    }
}

/// Where the first company of `n >= 3` squads ends: a third of them,
/// plus one when the split leaves a remainder.
pub open spec fn first_cut(n: nat) -> nat {
    n / 3 + if n % 3 >= 1 {
        1nat
    } else {
        0nat
    }
}

/// Where the second company of `n >= 3` squads ends: another third, plus
/// one when two are left over.
pub open spec fn second_cut(n: nat) -> nat {
    first_cut(n) + n / 3 + if n % 3 == 2 {
        1nat
    } else {
        0nat
    }
}

/// `s` cut into `company_count` consecutive pieces whose sizes differ by
/// at most one, the larger ones first.
pub open spec fn company_pieces(s: Seq<usize>) -> Seq<Seq<usize>> {
    let n = s.len();
    if n == 0 {
        Seq::empty()
    } else if n == 1 {
        seq![s]
    } else if n == 2 {
        seq![s.take(1), s.skip(1)]
    } else {
        seq![
            s.subrange(0, first_cut(n) as int),
            s.subrange(first_cut(n) as int, second_cut(n) as int),
            s.subrange(second_cut(n) as int, n as int),
        ]
    }
}

/// The views of a list of lists.
pub open spec fn views(s: Seq<Vec<usize>>) -> Seq<Seq<usize>> {
    s.map_values(|v: Vec<usize>| v@)
}

/// The order of squad ids.
pub open spec fn id_le() -> spec_fn(usize, usize) -> bool {
    |a: usize, b: usize| a <= b
}

/// Whether `s` is in ascending order.
pub open spec fn ascending(s: Seq<usize>) -> bool {
    forall|i: int, j: int| 0 <= i < j < s.len() ==> s[i] <= s[j]
}

/// The lists in `cs`, each put in ascending order.
pub open spec fn sorted_each(cs: Seq<Seq<usize>>) -> Seq<Seq<usize>> {
    cs.map_values(|c: Seq<usize>| c.sort_by(id_le()))
}

/// The companies of a side whose squads, in the order they stand on the
/// map, are `ordered`: the `company_pieces` of `ordered`, each in
/// ascending order of id, the companies in ascending order of their
/// first id.
pub open spec fn is_company_grouping(ordered: Seq<usize>, res: Seq<Seq<usize>>) -> bool {
    let chunks = company_pieces(ordered);
    &&& res.len() == chunks.len()
    &&& res.to_multiset() == sorted_each(chunks).to_multiset()
    &&& forall|j: int| 0 <= j < res.len() ==> res[j].len() > 0 && ascending(#[trigger] res[j])
    &&& forall|i: int, j: int|
        0 <= i < j < res.len() ==> (#[trigger] res[i])[0] <= (#[trigger] res[j])[0]
}

/// A side of `n` squads makes exactly `company_count(n)` companies (three,
/// fewer only when there are fewer squads), none of them empty, whose
/// sizes differ by at most one; put back together, they give the side's
/// squads in order.
pub proof fn lemma_company_pieces(ordered: Seq<usize>)
    ensures
        company_pieces(ordered).len() == company_count(ordered.len()),
        company_pieces(ordered).flatten() == ordered,
        forall|j: int|
            0 <= j < company_pieces(ordered).len() ==> (#[trigger] company_pieces(ordered)[j]).len()
                > 0,
        forall|i: int, j: int|
            0 <= i < j < company_pieces(ordered).len() ==> company_pieces(ordered)[j].len()
                <= #[trigger] company_pieces(ordered)[i].len() <= #[trigger] company_pieces(
                ordered,
            )[j].len() + 1,
{
    broadcast use Seq::group_seq_flatten;

    let n = ordered.len();
    let p = company_pieces(ordered);
    if n == 0 {
        assert(p.flatten() =~= ordered);
    } else if n == 1 {
        assert(p.flatten() =~= ordered);
    } else if n == 2 {
        assert(p =~= seq![ordered.take(1)].push(ordered.skip(1)));
        assert(seq![ordered.take(1)].flatten() == ordered.take(1));
        assert(p.flatten() =~= ordered);
    } else {
        let a = first_cut(n) as int;
        let b = second_cut(n) as int;
        assert(1 <= a < b < n);
        let x = ordered.subrange(0, a);
        let y = ordered.subrange(a, b);
        let z = ordered.subrange(b, n as int);
        assert(p =~= seq![x].push(y).push(z));
        assert(seq![x].flatten() == x);
        assert(p.flatten() =~= ordered);
    }
}

/// The squads that a list of companies holds, counted with repetition.
pub open spec fn all_members(cs: Seq<Seq<usize>>) -> vstd::multiset::Multiset<usize> {
    cs.flatten().to_multiset()
}

/// What a list of companies holds is what its company at `k` holds and
/// what the others hold.
proof fn lemma_members_remove(cs: Seq<Seq<usize>>, k: int)
    requires
        0 <= k < cs.len(),
    ensures
        all_members(cs) == cs[k].to_multiset().add(all_members(cs.remove(k))),
{
    broadcast use vstd::multiset::group_multiset_axioms;

    let a = cs.take(k);
    let b = cs.skip(k + 1);
    assert(cs =~= a + seq![cs[k]] + b);
    assert(cs.remove(k) =~= a + b);
    vstd::seq_lib::lemma_flatten_concat(a + seq![cs[k]], b);
    vstd::seq_lib::lemma_flatten_concat(a, seq![cs[k]]);
    vstd::seq_lib::lemma_flatten_concat(a, b);
    assert(seq![cs[k]].drop_first() =~= Seq::<Seq<usize>>::empty());
    assert(seq![cs[k]].flatten() =~= cs[k] + Seq::<Seq<usize>>::empty().flatten());
    assert(cs[k] + Seq::<usize>::empty() =~= cs[k]);
    vstd::seq_lib::lemma_multiset_commutative(a.flatten() + cs[k], b.flatten());
    vstd::seq_lib::lemma_multiset_commutative(a.flatten(), cs[k]);
    vstd::seq_lib::lemma_multiset_commutative(a.flatten(), b.flatten());
    assert(all_members(cs) =~= cs[k].to_multiset().add(all_members(cs.remove(k))));
}

/// Two lists holding the same companies, in any order, hold the same
/// squads.
proof fn lemma_members_permutation(x: Seq<Seq<usize>>, y: Seq<Seq<usize>>)
    requires
        x.to_multiset() == y.to_multiset(),
    ensures
        all_members(x) == all_members(y),
    decreases x.len(),
{
    broadcast use vstd::multiset::group_multiset_axioms;

    vstd::seq_lib::to_multiset_len(x);
    vstd::seq_lib::to_multiset_len(y);
    if x.len() == 0 {
        assert(x =~= Seq::<Seq<usize>>::empty());
        assert(y =~= Seq::<Seq<usize>>::empty());
    } else {
        let first = x[0];
        assert(x.contains(first));
        vstd::seq_lib::to_multiset_contains(x, first);
        vstd::seq_lib::to_multiset_contains(y, first);
        let k = choose|k: int| 0 <= k < y.len() && y[k] == first;
        vstd::seq_lib::to_multiset_remove(y, k);
        vstd::seq_lib::to_multiset_remove(x, 0);
        assert(x.remove(0) =~= x.drop_first());
        lemma_members_permutation(x.drop_first(), y.remove(k));
        lemma_members_remove(x, 0);
        lemma_members_remove(y, k);
    }
}

/// Two lists of companies whose companies hold, place by place, the same
/// squads, hold the same squads.
proof fn lemma_members_pointwise(x: Seq<Seq<usize>>, y: Seq<Seq<usize>>)
    requires
        x.len() == y.len(),
        forall|i: int| 0 <= i < x.len() ==> (#[trigger] x[i]).to_multiset() == y[i].to_multiset(),
    ensures
        all_members(x) == all_members(y),
    decreases x.len(),
{
    broadcast use vstd::multiset::group_multiset_axioms;

    if x.len() > 0 {
        assert forall|i: int| 0 <= i < x.drop_first().len() implies (
        #[trigger] x.drop_first()[i]).to_multiset() == y.drop_first()[i].to_multiset() by {
            assert(x.drop_first()[i] == x[i + 1]);
            assert(y.drop_first()[i] == y[i + 1]);
        }
        lemma_members_pointwise(x.drop_first(), y.drop_first());
        vstd::seq_lib::lemma_multiset_commutative(x[0], x.drop_first().flatten());
        vstd::seq_lib::lemma_multiset_commutative(y[0], y.drop_first().flatten());
    }
}

/// The companies of a side hold every squad of the side, each as many
/// times as the side lists it: no squad is lost or doubled by the split.
pub proof fn lemma_companies_hold_every_squad(ordered: Seq<usize>, res: Seq<Seq<usize>>)
    requires
        is_company_grouping(ordered, res),
    ensures
        all_members(res) == ordered.to_multiset(),
{
    let chunks = company_pieces(ordered);
    let sorted = sorted_each(chunks);
    lemma_members_permutation(res, sorted);
    assert forall|i: int| 0 <= i < sorted.len() implies (#[trigger] sorted[i]).to_multiset()
        == chunks[i].to_multiset() by {
        let le = id_le();
        assert(total_ordering(le));
        chunks[i].lemma_sort_by_ensures(le);
    }
    lemma_members_pointwise(sorted, chunks);
    lemma_company_pieces(ordered);
}

/// The squads of `v` from `lo` to `hi`, in order.
fn slice_ids(v: &Vec<usize>, lo: usize, hi: usize) -> (res: Vec<usize>)
    requires
        lo <= hi <= v@.len(),
    ensures
        res@ == v@.subrange(lo as int, hi as int),
{
    let mut res: Vec<usize> = Vec::new();
    let mut j: usize = lo;
    while j < hi
        invariant
            lo <= j <= hi <= v@.len(),
            res@ == v@.subrange(lo as int, j as int),
        decreases hi - j,
    {
        res.push(v[j]);
        j = j + 1;
        assert(res@ =~= v@.subrange(lo as int, j as int));
    }
    res
}

/// The `company_pieces` of `ordered`.
fn cut_squads(ordered: &Vec<usize>) -> (res: Vec<Vec<usize>>)
    ensures
        views(res@) == company_pieces(ordered@),
{
    let n = ordered.len();
    let mut res: Vec<Vec<usize>> = Vec::new();
    if n == 0 {
    } else if n == 1 {
        res.push(slice_ids(ordered, 0, 1));
        assert(ordered@.subrange(0, 1) =~= ordered@);
    } else if n == 2 {
        res.push(slice_ids(ordered, 0, 1));
        res.push(slice_ids(ordered, 1, 2));
        assert(ordered@.subrange(0, 1) =~= ordered@.take(1));
        assert(ordered@.subrange(1, 2) =~= ordered@.skip(1));
    } else {
        let q = n / 3;
        let r = n % 3;
        let a: usize = if r >= 1 {
            q + 1
        } else {
            q
        };
        let b: usize = if r == 2 {
            a + q + 1
        } else {
            a + q
        };
        assert(a == first_cut(n as nat) && b == second_cut(n as nat));
        assert(b <= n);
        res.push(slice_ids(ordered, 0, a));
        res.push(slice_ids(ordered, a, b));
        res.push(slice_ids(ordered, b, n));
    }
    assert(views(res@) =~= company_pieces(ordered@));
    res
}

/// Puts `v` in ascending order.
pub fn sort_ids(v: &Vec<usize>) -> (res: Vec<usize>)
    ensures
        ascending(res@),
        res@.to_multiset() == v@.to_multiset(),
        res@ == v@.sort_by(id_le()),
{
    let mut res: Vec<usize> = Vec::new();
    let mut i: usize = 0;
    while i < v.len()
        invariant
            i <= v.len(),
            ascending(res@),
            res@.to_multiset() == v@.take(i as int).to_multiset(),
        decreases v.len() - i,
    {
        let x = v[i];
        let mut p: usize = 0;
        while p < res.len() && res[p] <= x
            invariant
                p <= res.len(),
                forall|q: int| 0 <= q < p ==> res@[q] <= x,
            decreases res.len() - p,
        {
            p = p + 1;
        }
        let ghost old_res = res@;
        res.insert(p, x);
        assert(res@ == old_res.insert(p as int, x));
        assert(ascending(res@)) by {
            assert forall|a: int, b: int| 0 <= a < b < res@.len() implies res@[a] <= res@[b] by {
                if b < p {
                } else if b == p {
                } else if a < p {
                    assert(old_res[a] <= x);
                    if p < old_res.len() {
                        assert(x < old_res[p as int]);
                    }
                } else if a == p {
                    assert(x < old_res[p as int]);
                } else {
                }
            }
        }
        assert(v@.take(i as int + 1) =~= v@.take(i as int).push(x));
        i = i + 1;
    }
    assert(v@.take(v.len() as int) =~= v@);
    proof {
        let le = id_le();
        assert(total_ordering(le));
        v@.lemma_sort_by_ensures(le);
        assert(sorted_by(res@, le));
        vstd::seq_lib::lemma_sorted_unique(res@, v@.sort_by(le), le);
    }
    res
}

/// The lists of `cs`, in ascending order of their first id; among lists
/// with the same first id, the earlier one first.
fn order_by_first(cs: Vec<Vec<usize>>) -> (res: Vec<Vec<usize>>)
    requires
        forall|j: int| 0 <= j < cs@.len() ==> (#[trigger] cs@[j])@.len() > 0 && ascending(cs@[j]@),
    ensures
        views(res@).to_multiset() == views(cs@).to_multiset(),
        res@.len() == cs@.len(),
        forall|j: int| 0 <= j < res@.len() ==> (#[trigger] res@[j])@.len() > 0 && ascending(res@[j]@),
        forall|i: int, j: int|
            0 <= i < j < res@.len() ==> (#[trigger] res@[i])@[0] <= (#[trigger] res@[j])@[0],
{
    broadcast use vstd::multiset::group_multiset_axioms;

    let ghost orig = views(cs@);
    let mut rest = cs;
    let mut res: Vec<Vec<usize>> = Vec::new();
    assert(views(res@).to_multiset() =~= vstd::multiset::Multiset::<Seq<usize>>::empty());
    assert(views(res@).to_multiset().add(views(rest@).to_multiset()) =~= orig.to_multiset());
    while rest.len() > 0
        invariant
            views(res@).to_multiset().add(views(rest@).to_multiset()) == orig.to_multiset(),
            res@.len() + rest@.len() == orig.len(),
            forall|j: int|
                0 <= j < rest@.len() ==> (#[trigger] rest@[j])@.len() > 0 && ascending(rest@[j]@),
            forall|j: int|
                0 <= j < res@.len() ==> (#[trigger] res@[j])@.len() > 0 && ascending(res@[j]@),
            forall|i: int, j: int|
                0 <= i < j < res@.len() ==> (#[trigger] res@[i])@[0] <= (#[trigger] res@[j])@[0],
            forall|i: int, j: int|
                0 <= i < res@.len() && 0 <= j < rest@.len() ==> (#[trigger] res@[i])@[0] <= (
                #[trigger] rest@[j])@[0],
        decreases rest@.len(),
    {
        let mut m: usize = 0;
        let mut k: usize = 1;
        while k < rest.len()
            invariant
                m < k <= rest@.len(),
                forall|j: int|
                    0 <= j < rest@.len() ==> (#[trigger] rest@[j])@.len() > 0,
                forall|q: int| 0 <= q < k ==> rest@[m as int]@[0] <= (#[trigger] rest@[q])@[0],
            decreases rest@.len() - k,
        {
            if rest[k][0] < rest[m][0] {
                m = k;
            }
            k = k + 1;
        }
        let ghost before_rest = rest@;
        let ghost before_res = res@;
        let c = rest.remove(m);
        assert(c == before_rest[m as int]);
        assert(views(rest@) =~= views(before_rest).remove(m as int));
        assert(views(before_rest)[m as int] == c@);
        res.push(c);
        assert(views(res@) =~= views(before_res).push(c@));
        assert(rest@ == before_rest.remove(m as int));
        assert forall|j: int| 0 <= j < rest@.len() implies #[trigger] rest@[j] == before_rest[if j
            < m {
            j
        } else {
            j + 1
        }] by {}
        assert forall|i: int, j: int|
            0 <= i < res@.len() && 0 <= j < rest@.len() implies (#[trigger] res@[i])@[0] <= (
            #[trigger] rest@[j])@[0] by {
            let jj = if j < m {
                j
            } else {
                j + 1
            };
            assert(rest@[j] == before_rest[jj]);
            if i < before_res.len() {
                assert(res@[i] == before_res[i]);
            } else {
                assert(res@[i] == before_rest[m as int]);
            }
        }
        assert(views(res@).to_multiset().add(views(rest@).to_multiset()) =~= orig.to_multiset());
    }
    assert(views(rest@).to_multiset() =~= vstd::multiset::Multiset::<Seq<usize>>::empty());
    assert(views(res@).to_multiset() =~= views(res@).to_multiset().add(views(rest@).to_multiset()));
    res
}

/// The companies of a side whose squads, in the order they stand on the
/// map, are `ordered`.
pub fn group_companies(ordered: &Vec<usize>) -> (res: Vec<Vec<usize>>)
    ensures
        is_company_grouping(ordered@, views(res@)),
{
    let chunks = cut_squads(ordered);
    proof {
        lemma_company_pieces(ordered@);
        assert forall|j: int| 0 <= j < chunks@.len() implies (#[trigger] chunks@[j])@.len() > 0 by {
            assert(views(chunks@)[j] == chunks@[j]@);
        }
    }
    let ghost target = sorted_each(views(chunks@));
    let mut sorted: Vec<Vec<usize>> = Vec::new();
    let mut i: usize = 0;
    while i < chunks.len()
        invariant
            i <= chunks@.len(),
            views(chunks@) == company_pieces(ordered@),
            target == sorted_each(views(chunks@)),
            forall|j: int| 0 <= j < chunks@.len() ==> (#[trigger] chunks@[j])@.len() > 0,
            views(sorted@) == target.take(i as int),
            forall|j: int|
                0 <= j < sorted@.len() ==> (#[trigger] sorted@[j])@.len() > 0 && ascending(
                    sorted@[j]@,
                ),
        decreases chunks@.len() - i,
    {
        assert(views(chunks@)[i as int] == chunks@[i as int]@);
        let piece = sort_ids(&chunks[i]);
        proof {
            vstd::seq_lib::to_multiset_len(piece@);
            vstd::seq_lib::to_multiset_len(chunks@[i as int]@);
        }
        let ghost before = sorted@;
        sorted.push(piece);
        assert(views(sorted@) =~= views(before).push(piece@));
        assert(target.take(i as int + 1) =~= target.take(i as int).push(target[i as int]));
        i = i + 1;
    }
    assert(target.take(i as int) =~= target);
    let res = order_by_first(sorted);
    res
}

/// The call sign of the company at position `index` among the companies
/// of a side.
pub open spec fn call_sign(index: nat) -> Seq<char> {
    if index == 0 {
        "Alpha"@
    } else if index == 1 {
        "Bravo"@
    } else if index == 2 {
        "Charlie"@
    } else if index == 3 {
        "Delta"@
    } else if index == 4 {
        "Echo"@
    } else if index == 5 {
        "Foxtrot"@
    } else if index == 6 {
        "Golf"@
    } else if index == 7 {
        "Hotel"@
    } else {
        "Omega"@
    }
}

/// The name of the company at position `index` among the companies of
/// the side named `side`: the side, a hyphen and the call sign.
pub fn company_name(side: &str, index: usize) -> (res: String)
    ensures
        res@ == side@ + "-"@ + call_sign(index as nat),
{
    let sign: &str = if index == 0 {
        "Alpha"
    } else if index == 1 {
        "Bravo"
    } else if index == 2 {
        "Charlie"
    } else if index == 3 {
        "Delta"
    } else if index == 4 {
        "Echo"
    } else if index == 5 {
        "Foxtrot"
    } else if index == 6 {
        "Golf"
    } else if index == 7 {
        "Hotel"
    } else {
        "Omega"
    };
    side.to_owned().concat("-").concat(sign)
}

/// A company: its name, its squads (in ascending order of id), its scout
/// once one is chosen, and its side.
pub struct Company {
    pub id: String,
    pub squads: Vec<usize>,
    pub scout_squad: Option<usize>,
    pub side: Side,
}

/// The companies of side `side`, named after `side_name`, whose squads,
/// in the order they stand on the map, are `ordered`: the groups of
/// `group_companies`, in order, the one at position `j` named
/// `company_name(side_name, j)`, none with a scout yet.
pub fn form_companies(side: Side, side_name: &str, ordered: &Vec<usize>) -> (res: Vec<Company>)
    ensures
        is_company_grouping(ordered@, Seq::new(res@.len(), |j: int| res@[j].squads@)),
        forall|j: int|
            0 <= j < res@.len() ==> (#[trigger] res@[j]).id@ == side_name@ + "-"@ + call_sign(
                j as nat,
            ) && res@[j].scout_squad is None && res@[j].side == side,
{
    let groups = group_companies(ordered);
    let mut res: Vec<Company> = Vec::new();
    let mut j: usize = 0;
    while j < groups.len()
        invariant
            j <= groups@.len(),
            res@.len() == j,
            forall|k: int| 0 <= k < j ==> (#[trigger] res@[k]).squads@ == groups@[k]@,
            forall|k: int|
                0 <= k < j ==> (#[trigger] res@[k]).id@ == side_name@ + "-"@ + call_sign(k as nat)
                    && res@[k].scout_squad is None && res@[k].side == side,
        decreases groups@.len() - j,
    {
        let squads = crate::roster::copy_ids(&groups[j]);
        res.push(Company { id: company_name(side_name, j), squads, scout_squad: None, side });
        j = j + 1;
    }
    assert(Seq::new(res@.len(), |j: int| res@[j].squads@) =~= views(groups@));
    res
}

/// How many frames a scout must wait between two passes of its turn.
pub const TURN_PASS_INTERVAL: u64 = 180;

/// The scout rotation of one company: the squads that have already gone
/// ahead in the current round, how many turns were passed, and when the
/// last one was.
pub struct ScoutRotation {
    history: HashSet<usize>,
    passes: usize,
    last_pass_frame: u64,
}

/// A scout rotation, as mathematical values.
pub struct RotationView {
    pub history: Set<usize>,
    pub passes: nat,
    pub last_pass_frame: nat,
}

impl View for ScoutRotation {
    type V = RotationView;

    closed spec fn view(&self) -> RotationView {
        RotationView {
            history: self.history@,
            passes: self.passes as nat,
            last_pass_frame: self.last_pass_frame as nat,
        }
    }
}

/// Whether some squad of `squads` has not gone ahead in the round.
pub open spec fn has_fresh(history: Set<usize>, squads: Seq<usize>) -> bool {
    exists|i: int| 0 <= i < squads.len() && !history.contains(#[trigger] squads[i])
}

/// The round's record once squads that left the company are forgotten;
/// when every squad of a company of several has gone ahead, a new round
/// starts with an empty record.
pub open spec fn history_for(history: Set<usize>, squads: Seq<usize>) -> Set<usize> {
    let kept = history.intersect(squads.to_set());
    if !has_fresh(kept, squads) && squads.len() > 1 {
        Set::empty()
    } else {
        kept
    }
}

/// Whether `s` is the scout of a company of `squads` given the round's
/// record `history`: the lowest id that has not gone ahead, or the lowest
/// id when all have.
pub open spec fn is_scout_choice(history: Set<usize>, squads: Seq<usize>, s: usize) -> bool {
    &&& squads.contains(s)
    &&& if has_fresh(history, squads) {
        &&& !history.contains(s)
        &&& forall|i: int|
            0 <= i < squads.len() && !history.contains(#[trigger] squads[i]) ==> s <= squads[i]
    } else {
        forall|i: int| 0 <= i < squads.len() ==> s <= #[trigger] squads[i]
    }
}

impl ScoutRotation {
    /// A rotation in which no squad has gone ahead and no turn was passed.
    pub fn new() -> (res: Self)
        ensures
            res@.history == Set::<usize>::empty(),
            res@.passes == 0,
            res@.last_pass_frame == 0,
    {
        ScoutRotation { history: HashSet::new(), passes: 0, last_pass_frame: 0 }
    }

    /// The squads that have gone ahead in the current round.
    pub fn has_scouted(&self, squad: usize) -> (res: bool)
        ensures
            res == self@.history.contains(squad),
    {
        self.history.contains(&squad)
    }

    /// How many turns were passed.
    pub fn passes(&self) -> (res: usize)
        ensures
            res == self@.passes,
    {
        self.passes
    }

    /// The frame of the last pass of a turn.
    pub fn last_pass_frame(&self) -> (res: u64)
        ensures
            res == self@.last_pass_frame,
    {
        self.last_pass_frame
    }

    /// Picks the scout of a company whose squads are `squads`: the record
    /// forgets squads that left the company and starts a new round when
    /// all have gone ahead; the scout is the lowest id that has not gone
    /// ahead in the round.
    pub fn choose_scout(&mut self, squads: &Vec<usize>) -> (scout: usize)
        requires
            squads@.len() > 0,
        ensures
            final(self)@.history == history_for(old(self)@.history, squads@),
            final(self)@.passes == old(self)@.passes,
            final(self)@.last_pass_frame == old(self)@.last_pass_frame,
            is_scout_choice(final(self)@.history, squads@, scout),
    {
        let n = squads.len();
        let mut kept: HashSet<usize> = HashSet::new();
        let mut i: usize = 0;
        while i < n
            invariant
                i <= n,
                n == squads@.len(),
                kept@ == self.history@.intersect(squads@.take(i as int).to_set()),
            decreases n - i,
        {
            let sq = squads[i];
            if self.history.contains(&sq) {
                kept.insert(sq);
            }
            assert(squads@.take(i as int + 1).to_set() =~= squads@.take(i as int).to_set().insert(
                sq,
            )) by {
                assert(squads@.take(i as int + 1) =~= squads@.take(i as int).push(sq));
                squads@.take(i as int).lemma_push_to_set_commute(sq);
            }
            assert(kept@ =~= self.history@.intersect(squads@.take(i as int + 1).to_set()));
            i = i + 1;
        }
        assert(squads@.take(n as int) =~= squads@);
        let ghost kept_all = kept@;
        let mut lowest: usize = squads[0];
        let mut lowest_fresh: Option<usize> = None;
        let mut j: usize = 0;
        while j < n
            invariant
                j <= n,
                n == squads@.len(),
                n > 0,
                kept@ == kept_all,
                squads@.contains(lowest),
                forall|q: int| 0 <= q < j ==> lowest <= #[trigger] squads@[q],
                match lowest_fresh {
                    Some(f) => {
                        &&& squads@.contains(f)
                        &&& !kept_all.contains(f)
                        &&& forall|q: int|
                            0 <= q < j && !kept_all.contains(#[trigger] squads@[q]) ==> f
                                <= squads@[q]
                    },
                    None => forall|q: int| 0 <= q < j ==> kept_all.contains(#[trigger] squads@[q]),
                },
            decreases n - j,
        {
            let sq = squads[j];
            if sq < lowest {
                lowest = sq;
            }
            if !kept.contains(&sq) {
                match lowest_fresh {
                    Some(f) => {
                        if sq < f {
                            lowest_fresh = Some(sq);
                        }
                    },
                    None => {
                        lowest_fresh = Some(sq);
                    },
                }
            }
            j = j + 1;
        }
        let scout = match lowest_fresh {
            Some(f) => f,
            None => {
                if n > 1 {
                    kept.clear();
                }
                lowest
            },
        };
        proof {
            if lowest_fresh is None {
                assert(!has_fresh(kept_all, squads@));
                if n > 1 {
                    assert(has_fresh(Set::<usize>::empty(), squads@)) by {
                        assert(!Set::<usize>::empty().contains(squads@[0]));
                    }
                }
            } else {
                let f = lowest_fresh->0;
                let k = choose|k: int| 0 <= k < squads@.len() && squads@[k] == f;
                assert(!kept_all.contains(squads@[k]));
                assert(has_fresh(kept_all, squads@));
            }
        }
        self.history = kept;
        scout
    }

    /// Records that `squad`, the company's scout, gives up its turn at
    /// `frame` (its way is blocked, or it is back at its checkpoint): at
    /// most once per `TURN_PASS_INTERVAL` frames, the squad joins the
    /// round's record, so that the next squad goes ahead. Says whether the
    /// turn was passed.
    pub fn pass_turn(&mut self, squad: usize, frame: u64) -> (passed: bool)
        requires
            old(self)@.last_pass_frame + TURN_PASS_INTERVAL <= u64::MAX,
            old(self)@.passes < usize::MAX,
        ensures
            passed == (frame > old(self)@.last_pass_frame + TURN_PASS_INTERVAL),
            passed ==> final(self)@ == (RotationView {
                history: old(self)@.history.insert(squad),
                passes: old(self)@.passes + 1,
                last_pass_frame: frame as nat,
            }),
            !passed ==> final(self)@ == old(self)@,
    {
        if frame > self.last_pass_frame + TURN_PASS_INTERVAL {
            self.passes = self.passes + 1;
            self.last_pass_frame = frame;
            self.history.insert(squad);
            true
        } else {
            false
        }
    }
}

/// The scout is always one of the company's squads, and while some
/// squad has not gone ahead in the round, no squad goes ahead twice.
pub proof fn lemma_scout_rotation(history: Set<usize>, squads: Seq<usize>, s: usize)
    requires
        squads.len() > 0,
        is_scout_choice(history_for(history, squads), squads, s),
    ensures
        squads.contains(s),
        has_fresh(history.intersect(squads.to_set()), squads) ==> !history.contains(s),
        squads.len() > 1 ==> !history_for(history, squads).contains(s),
        history_for(history, squads).subset_of(squads.to_set()),
{
    let kept = history.intersect(squads.to_set());
    if has_fresh(kept, squads) {
        let i = choose|i: int| 0 <= i < squads.len() && !kept.contains(#[trigger] squads[i]);
        assert(squads.to_set().contains(s));
    } else if squads.len() > 1 {
        assert(!Set::<usize>::empty().contains(squads[0]));
        assert(has_fresh(Set::<usize>::empty(), squads));
    }
}

/// A squad that has passed its turn is not chosen again while another
/// squad of the company has not gone ahead in the round.
pub proof fn lemma_passed_scout_waits(history: Set<usize>, squads: Seq<usize>, s: usize, t: usize)
    requires
        squads.len() > 0,
        squads.contains(s),
        has_fresh(history.insert(s).intersect(squads.to_set()), squads),
        is_scout_choice(history_for(history.insert(s), squads), squads, t),
    ensures
        t != s,
{
    let h = history.insert(s);
    let kept = h.intersect(squads.to_set());
    assert(kept.contains(s)) by {
        assert(squads.to_set().contains(s));
    }
    assert(history_for(h, squads) == kept);
}

} // verus!
