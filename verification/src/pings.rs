//! The tactical memory of the battle: the grid cells where shots were
//! fired, bullets struck or soldiers fell, each remembered for a while as
//! dangerous for one side, so that paths go around them.

use vstd::prelude::*;
use crate::path::GridPoint;
use crate::tally::Side;

verus! {

/// A remembered danger: the cell, the frame until which it is remembered,
/// and the side whose fire made it.
#[derive(Clone, Copy, Debug, PartialEq, Eq, Structural)]
pub struct Ping {
    pub cell: GridPoint,
    pub expire_frame: u64,
    pub side: Side,
}

/// How long, in frames, the cell where a soldier fell is remembered.
pub const DEATH_MEMORY_FRAMES: u64 = 3600;

/// How long, in frames, the cells a shot came from and went to are
/// remembered.
pub const FIRE_MEMORY_FRAMES: u64 = 1800;

/// Whether some ping of `s` is about cell `c`.
pub open spec fn has_cell(s: Seq<Ping>, c: GridPoint) -> bool {
    exists|i: int| 0 <= i < s.len() && (#[trigger] s[i]).cell == c
}

/// Where the ping about `c` stands in `s`.
pub open spec fn ping_index(s: Seq<Ping>, c: GridPoint) -> int {
    choose|i: int| 0 <= i < s.len() && (#[trigger] s[i]).cell == c
}

/// The ping about `c`, if one is remembered.
pub open spec fn ping_at(s: Seq<Ping>, c: GridPoint) -> Option<Ping> {
    if has_cell(s, c) {
        Some(s[ping_index(s, c)])
    } else {
        None
    }
}

/// Whether no two pings of `s` are about the same cell.
pub open spec fn cells_distinct(s: Seq<Ping>) -> bool {
    forall|i: int, j: int| 0 <= i < j < s.len() ==> (#[trigger] s[i]).cell != (#[trigger] s[j]).cell
}

/// What a cleanup at `frame` leaves of a remembered ping: the ping while
/// it has not expired.
pub open spec fn spec_forget_expired(p: Option<Ping>, frame: nat) -> Option<Ping> {
    match p {
        Some(q) => if q.expire_frame > frame {
            Some(q)
        } else {
            None
        },
        None => None,
    }
}

/// The cells of the pings of `s` made by the fire of a side other than
/// `side`, in order: the dangers `side` steers clear of.
pub open spec fn cells_hostile_to(s: Seq<Ping>, side: Side) -> Seq<GridPoint>
    decreases s.len(),
{
    if s.len() == 0 {
        Seq::empty()
    } else {
        let rest = cells_hostile_to(s.drop_last(), side);
        if s.last().side != side {
            rest.push(s.last().cell)
        } else {
            rest
        }
    }
}

/// In a list without two pings about one cell, the ping about the cell of
/// the `i`-th is the `i`-th.
pub proof fn lemma_ping_at_index(s: Seq<Ping>, i: int)
    requires
        cells_distinct(s),
        0 <= i < s.len(),
    ensures
        ping_at(s, s[i].cell) == Some(s[i]),
        ping_index(s, s[i].cell) == i,
{
    assert(has_cell(s, s[i].cell));
    let k = ping_index(s, s[i].cell);
    if k != i {
        if k < i {
            assert(s[k].cell != s[i].cell);
        } else {
            assert(s[i].cell != s[k].cell);
        }
    }
}

/// The tactical memory: at most one ping per cell.
pub struct TacticalPings {
    pings: Vec<Ping>,
}

impl View for TacticalPings {
    type V = Seq<Ping>;

    closed spec fn view(&self) -> Seq<Ping> {
        self.pings@
    }
}

impl TacticalPings {
    /// No two pings are about the same cell.
    #[verifier::type_invariant]
    closed spec fn inv(self) -> bool {
        cells_distinct(self.pings@)
    }

    /// An empty memory.
    pub fn new() -> (res: Self)
        ensures
            res@ == Seq::<Ping>::empty(),
    {
        TacticalPings { pings: Vec::new() }
    }

    /// How many cells are remembered.
    pub fn len(&self) -> (res: usize)
        ensures
            res == self@.len(),
    {
        self.pings.len()
    }

    /// The `i`-th remembered ping.
    pub fn get(&self, i: usize) -> (res: Ping)
        requires
            i < self@.len(),
        ensures
            res == self@[i as int],
    {
        self.pings[i]
    }

    /// The ping about `cell`, if one is remembered.
    pub fn lookup(&self, cell: GridPoint) -> (res: Option<Ping>)
        ensures
            res == ping_at(self@, cell),
    {
        proof {
            use_type_invariant(self);
        }
        let mut i: usize = 0;
        while i < self.pings.len()
            invariant
                i <= self.pings@.len(),
                cells_distinct(self.pings@),
                forall|j: int| 0 <= j < i ==> (#[trigger] self.pings@[j]).cell != cell,
            decreases self.pings@.len() - i,
        {
            if self.pings[i].cell == cell {
                proof {
                    lemma_ping_at_index(self.pings@, i as int);
                }
                return Some(self.pings[i]);
            }
            i = i + 1;
        }
        None
    }

    /// The cells that `side` steers clear of: those remembered for the
    /// fire of another side.
    pub fn hostile_cells(&self, side: Side) -> (res: Vec<GridPoint>)
        ensures
            res@ == cells_hostile_to(self@, side),
    {
        let mut res: Vec<GridPoint> = Vec::new();
        let mut i: usize = 0;
        while i < self.pings.len()
            invariant
                i <= self.pings@.len(),
                res@ == cells_hostile_to(self.pings@.take(i as int), side),
            decreases self.pings@.len() - i,
        {
            let p = self.pings[i];
            assert(self.pings@.take(i as int + 1).drop_last() =~= self.pings@.take(i as int));
            if p.side != side {
                res.push(p.cell);
            }
            i = i + 1;
        }
        assert(self.pings@.take(i as int) =~= self.pings@);
        res
    }

    /// Remembers `cell` as dangerous until `expire_frame`, made by `side`'s
    /// fire; what was remembered of that cell is replaced, the other cells
    /// are kept.
    pub fn record(&mut self, cell: GridPoint, expire_frame: u64, side: Side)
        ensures
            forall|c: GridPoint|
                #[trigger] ping_at(final(self)@, c) == if c == cell {
                    Some(Ping { cell, expire_frame, side })
                } else {
                    ping_at(old(self)@, c)
                },
    {
        proof {
            use_type_invariant(&*self);
        }
        let ghost before = self.pings@;
        let p = Ping { cell, expire_frame, side };
        let mut i: usize = 0;
        while i < self.pings.len()
            invariant
                self.pings@ == before,
                cells_distinct(before),
                i <= before.len(),
                p == (Ping { cell, expire_frame, side }),
                before == old(self)@,
                forall|j: int| 0 <= j < i ==> (#[trigger] before[j]).cell != cell,
            decreases before.len() - i,
        {
            if self.pings[i].cell == cell {
                let mut pings: Vec<Ping> = Vec::new();
                std::mem::swap(&mut pings, &mut self.pings);
                assert(pings@ == before);
                assert(before[i as int].cell == cell);
                pings.set(i, p);
                proof {
                    let after = pings@;
                    assert(after == before.update(i as int, p));
                    assert(after[i as int] == p);
                    assert(cells_distinct(after)) by {
                        assert forall|a: int, b: int| 0 <= a < b < after.len() implies (
                        #[trigger] after[a]).cell != (#[trigger] after[b]).cell by {
                            if a != i && b != i {
                                assert(before[a].cell != before[b].cell);
                            } else if a == i {
                                assert(before[a].cell != before[b].cell);
                            } else {
                                assert(before[a].cell != before[b].cell);
                            }
                        }
                    }
                    assert forall|c: GridPoint|
                        #[trigger] ping_at(after, c) == if c == cell {
                            Some(p)
                        } else {
                            ping_at(before, c)
                        } by {
                        if c == cell {
                            lemma_ping_at_index(after, i as int);
                        } else if has_cell(after, c) {
                            let k = ping_index(after, c);
                            lemma_ping_at_index(after, k);
                            assert(k != i);
                            assert(before[k] == after[k]);
                            lemma_ping_at_index(before, k);
                        } else {
                            assert forall|k: int| 0 <= k < before.len() implies (
                            #[trigger] before[k]).cell != c by {
                                if k != i {
                                    assert(before[k] == after[k]);
                                }
                            }
                        }
                    }
                }
                self.pings = pings;
                return;
            }
            i = i + 1;
        }
        let mut pings: Vec<Ping> = Vec::new();
                std::mem::swap(&mut pings, &mut self.pings);
        assert(pings@ == before);
        pings.push(p);
        proof {
            let after = pings@;
            assert(after == before.push(p));
            assert(cells_distinct(after)) by {
                assert forall|a: int, b: int| 0 <= a < b < after.len() implies (
                #[trigger] after[a]).cell != (#[trigger] after[b]).cell by {
                    if b == before.len() {
                        assert(before[a].cell != cell);
                    } else {
                        assert(before[a].cell != before[b].cell);
                    }
                }
            }
            assert forall|c: GridPoint|
                #[trigger] ping_at(after, c) == if c == cell {
                    Some(p)
                } else {
                    ping_at(before, c)
                } by {
                if c == cell {
                    lemma_ping_at_index(after, before.len() as int);
                } else if has_cell(after, c) {
                    let k = ping_index(after, c);
                    lemma_ping_at_index(after, k);
                    assert(k < before.len());
                    lemma_ping_at_index(before, k);
                } else {
                    assert forall|k: int| 0 <= k < before.len() implies (#[trigger] before[k]).cell
                        != c by {
                        assert(after[k] == before[k]);
                    }
                }
            }
        }
        self.pings = pings;
    }

    /// Keeps the pings whose entry of `keep` is true, in order.
    fn retain_where(&mut self, keep: &Vec<bool>)
        requires
            keep@.len() == old(self)@.len(),
        ensures
            forall|c: GridPoint|
                #[trigger] ping_at(final(self)@, c) == if has_cell(old(self)@, c) && keep@[ping_index(
                    old(self)@,
                    c,
                )] {
                    ping_at(old(self)@, c)
                } else {
                    None
                },
            final(self)@.len() <= old(self)@.len(),
    {
        proof {
            use_type_invariant(&*self);
        }
        let ghost before = self.pings@;
        let mut kept: Vec<Ping> = Vec::new();
        let ghost mut idx: Seq<int> = Seq::empty();
        let mut i: usize = 0;
        while i < self.pings.len()
            invariant
                self.pings@ == before,
                cells_distinct(before),
                keep@.len() == before.len(),
                i <= before.len(),
                idx.len() == kept@.len(),
                kept@.len() <= i,
                forall|k: int| 0 <= k < idx.len() ==> 0 <= #[trigger] idx[k] < i,
                forall|k: int| 0 <= k < idx.len() ==> kept@[k] == before[#[trigger] idx[k]],
                forall|k: int| 0 <= k < idx.len() ==> keep@[#[trigger] idx[k]],
                forall|a: int, b: int| 0 <= a < b < idx.len() ==> #[trigger] idx[a] < #[trigger] idx[b],
                forall|j: int|
                    0 <= j < i && keep@[j] ==> exists|k: int|
                        0 <= k < idx.len() && #[trigger] idx[k] == j,
            decreases before.len() - i,
        {
            let ghost old_idx = idx;
            if keep[i] {
                kept.push(self.pings[i]);
                proof {
                    idx = idx.push(i as int);
                    assert(idx[idx.len() - 1] == i);
                }
            }
            proof {
                assert forall|j: int| 0 <= j < i + 1 && keep@[j] implies exists|k: int|
                    0 <= k < idx.len() && #[trigger] idx[k] == j by {
                    if j == i {
                        assert(idx[idx.len() - 1] == j);
                    } else {
                        let k = choose|k: int| 0 <= k < old_idx.len() && #[trigger] old_idx[k] == j;
                        assert(idx[k] == old_idx[k]);
                    }
                }
            }
            i = i + 1;
        }
        proof {
            let after = kept@;
            assert(cells_distinct(after)) by {
                assert forall|a: int, b: int| 0 <= a < b < after.len() implies (
                #[trigger] after[a]).cell != (#[trigger] after[b]).cell by {
                    assert(idx[a] < idx[b]);
                    assert(after[a] == before[idx[a]]);
                    assert(after[b] == before[idx[b]]);
                    assert(before[idx[a]].cell != before[idx[b]].cell);
                }
            }
            assert forall|c: GridPoint|
                #[trigger] ping_at(after, c) == if has_cell(before, c) && keep@[ping_index(before, c)] {
                    ping_at(before, c)
                } else {
                    None
                } by {
                if has_cell(after, c) {
                    let k = ping_index(after, c);
                    lemma_ping_at_index(after, k);
                    assert(after[k] == before[idx[k]]);
                    lemma_ping_at_index(before, idx[k]);
                } else if has_cell(before, c) {
                    let j = ping_index(before, c);
                    lemma_ping_at_index(before, j);
                    if keep@[j] {
                        let k = choose|k: int| 0 <= k < idx.len() && #[trigger] idx[k] == j;
                        assert(after[k] == before[j]);
                        assert(after[k].cell == c);
                    }
                }
            }
        }
        self.pings = kept;
    }

    /// Forgets the pings that expired by `frame`: a ping is kept while its
    /// expiry frame is after `frame`.
    pub fn forget_expired(&mut self, frame: u64)
        ensures
            forall|c: GridPoint|
                #[trigger] ping_at(final(self)@, c) == spec_forget_expired(
                    ping_at(old(self)@, c),
                    frame as nat,
                ),
            final(self)@.len() <= old(self)@.len(),
    {
        let mut keep: Vec<bool> = Vec::new();
        let mut i: usize = 0;
        while i < self.pings.len()
            invariant
                i <= self.pings@.len(),
                keep@.len() == i,
                forall|j: int|
                    0 <= j < i ==> #[trigger] keep@[j] == (self.pings@[j].expire_frame > frame),
            decreases self.pings@.len() - i,
        {
            keep.push(self.pings[i].expire_frame > frame);
            i = i + 1;
        }
        self.retain_where(&keep);
    }

    /// Forgets the pings marked in `drop` (one mark per remembered ping,
    /// in order), such as those near a flag that changed hands.
    pub fn forget_marked(&mut self, drop: &Vec<bool>)
        requires
            drop@.len() == old(self)@.len(),
        ensures
            forall|c: GridPoint|
                #[trigger] ping_at(final(self)@, c) == if has_cell(old(self)@, c) && !drop@[ping_index(
                    old(self)@,
                    c,
                )] {
                    ping_at(old(self)@, c)
                } else {
                    None
                },
            final(self)@.len() <= old(self)@.len(),
    {
        let mut keep: Vec<bool> = Vec::new();
        let mut i: usize = 0;
        while i < drop.len()
            invariant
                i <= drop@.len(),
                keep@.len() == i,
                forall|j: int| 0 <= j < i ==> #[trigger] keep@[j] == !drop@[j],
            decreases drop@.len() - i,
        {
            keep.push(!drop[i]);
            i = i + 1;
        }
        self.retain_where(&keep);
    }
}

/// When a danger seen at `frame` with a memory of `lifetime` frames
/// expires.
pub fn expiry(frame: u64, lifetime: u64) -> (res: u64)
    requires
        frame + lifetime <= u64::MAX,
    ensures
        res == frame + lifetime,
{
    frame + lifetime
}

/// A ping recorded at `frame` for `lifetime` frames survives every
/// cleanup before `frame + lifetime` and is gone at the first one at or
/// after it.
pub proof fn lemma_memory_lifetime(cell: GridPoint, side: Side, frame: nat, lifetime: nat, cleanup: nat)
    requires
        frame + lifetime <= u64::MAX,
    ensures
        spec_forget_expired(
            Some(Ping { cell, expire_frame: (frame + lifetime) as u64, side }),
            cleanup,
        ) is Some <==> cleanup < frame + lifetime,
{
}

} // verus!
