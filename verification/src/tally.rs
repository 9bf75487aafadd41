//! The counts a battle log keeps: per phase and for the whole game, the
//! deaths and the ammunition each side spent, the phase being written, and
//! the orders given so far.

use vstd::prelude::*;

verus! {

/// The sides of a battle; `All` stands for both at once.
#[derive(Clone, Copy, Debug, PartialEq, Eq, Structural)]
pub enum Side {
    A,
    B,
    All,
}

/// Counts kept by the battle log.
pub struct BattleTally {
    current_phase: usize,
    start_time: u64,
    current_order_id: Option<usize>,
    deaths_a: usize,
    deaths_b: usize,
    ammo_a: usize,
    ammo_b: usize,
    total_deaths_a: usize,
    total_deaths_b: usize,
    total_ammo_a: usize,
    total_ammo_b: usize,
    order_counter: usize,
}

/// The counts, as mathematical values.
pub struct TallyView {
    pub current_phase: nat,
    pub start_time: nat,
    pub current_order_id: Option<nat>,
    pub deaths_a: nat,
    pub deaths_b: nat,
    pub ammo_a: nat,
    pub ammo_b: nat,
    pub total_deaths_a: nat,
    pub total_deaths_b: nat,
    pub total_ammo_a: nat,
    pub total_ammo_b: nat,
    pub order_counter: nat,
}

/// The counts of the current phase are part of the totals, phases are
/// numbered from one, and the current order is the last one given.
pub open spec fn tally_wf(t: TallyView) -> bool {
    &&& t.current_phase >= 1
    &&& t.deaths_a <= t.total_deaths_a
    &&& t.deaths_b <= t.total_deaths_b
    &&& t.ammo_a <= t.total_ammo_a
    &&& t.ammo_b <= t.total_ammo_b
    &&& match t.current_order_id {
        Some(id) => id == t.order_counter && id >= 1,
        None => t.order_counter == 0,
    }
}

impl View for BattleTally {
    type V = TallyView;

    closed spec fn view(&self) -> TallyView {
        TallyView {
            current_phase: self.current_phase as nat,
            start_time: self.start_time as nat,
            current_order_id: match self.current_order_id {
                Some(id) => Some(id as nat),
                None => None,
            },
            deaths_a: self.deaths_a as nat,
            deaths_b: self.deaths_b as nat,
            ammo_a: self.ammo_a as nat,
            ammo_b: self.ammo_b as nat,
            total_deaths_a: self.total_deaths_a as nat,
            total_deaths_b: self.total_deaths_b as nat,
            total_ammo_a: self.total_ammo_a as nat,
            total_ammo_b: self.total_ammo_b as nat,
            order_counter: self.order_counter as nat,
        }
    }
}

impl BattleTally {
    /// A tally for a game that starts at `start_frame`, in its first phase.
    pub fn new(start_frame: u64) -> (res: Self)
        ensures
            tally_wf(res@),
            res@ == (TallyView {
                current_phase: 1,
                start_time: start_frame as nat,
                current_order_id: None,
                deaths_a: 0,
                deaths_b: 0,
                ammo_a: 0,
                ammo_b: 0,
                total_deaths_a: 0,
                total_deaths_b: 0,
                total_ammo_a: 0,
                total_ammo_b: 0,
                order_counter: 0,
            }),
    {
        BattleTally {
            current_phase: 1,
            start_time: start_frame,
            current_order_id: None,
            deaths_a: 0,
            deaths_b: 0,
            ammo_a: 0,
            ammo_b: 0,
            total_deaths_a: 0,
            total_deaths_b: 0,
            total_ammo_a: 0,
            total_ammo_b: 0,
            order_counter: 0,
        }
    }

    pub fn current_phase(&self) -> (res: usize)
        ensures
            res == self@.current_phase,
    {
        self.current_phase
    }

    pub fn start_time(&self) -> (res: u64)
        ensures
            res == self@.start_time,
    {
        self.start_time
    }

    pub fn current_order_id(&self) -> (res: Option<usize>)
        ensures
            res matches Some(id) ==> self@.current_order_id == Some(id as nat),
            res is None ==> self@.current_order_id is None,
    {
        self.current_order_id
    }

    /// Deaths and ammunition of the current phase: `(deaths_a, deaths_b,
    /// ammo_a, ammo_b)`.
    pub fn phase_counts(&self) -> (res: (usize, usize, usize, usize))
        ensures
            res.0 == self@.deaths_a,
            res.1 == self@.deaths_b,
            res.2 == self@.ammo_a,
            res.3 == self@.ammo_b,
    {
        (self.deaths_a, self.deaths_b, self.ammo_a, self.ammo_b)
    }

    /// Deaths and ammunition of the whole game: `(deaths_a, deaths_b,
    /// ammo_a, ammo_b)`.
    pub fn total_counts(&self) -> (res: (usize, usize, usize, usize))
        ensures
            res.0 == self@.total_deaths_a,
            res.1 == self@.total_deaths_b,
            res.2 == self@.total_ammo_a,
            res.3 == self@.total_ammo_b,
    {
        (self.total_deaths_a, self.total_deaths_b, self.total_ammo_a, self.total_ammo_b)
    }

    /// Counts a death of `side`; a death of `All` counts for no side.
    pub fn log_death(&mut self, side: Side)
        requires
            tally_wf(old(self)@),
            side == Side::A ==> old(self)@.total_deaths_a < usize::MAX,
            side == Side::B ==> old(self)@.total_deaths_b < usize::MAX,
        ensures
            tally_wf(final(self)@),
            final(self)@ == (match side {
                Side::A => TallyView {
                    deaths_a: old(self)@.deaths_a + 1,
                    total_deaths_a: old(self)@.total_deaths_a + 1,
                    ..old(self)@
                },
                Side::B => TallyView {
                    deaths_b: old(self)@.deaths_b + 1,
                    total_deaths_b: old(self)@.total_deaths_b + 1,
                    ..old(self)@
                },
                Side::All => old(self)@,
            }),
    {
        match side {
            Side::A => {
                self.deaths_a = self.deaths_a + 1;
                self.total_deaths_a = self.total_deaths_a + 1;
            },
            Side::B => {
                self.deaths_b = self.deaths_b + 1;
                self.total_deaths_b = self.total_deaths_b + 1;
            },
            _ => {},
        }
    }

    /// Counts `amount` rounds spent by `side`; `All` counts for no side.
    pub fn log_ammo(&mut self, side: Side, amount: usize)
        requires
            tally_wf(old(self)@),
            side == Side::A ==> old(self)@.total_ammo_a + amount <= usize::MAX,
            side == Side::B ==> old(self)@.total_ammo_b + amount <= usize::MAX,
        ensures
            tally_wf(final(self)@),
            final(self)@ == (match side {
                Side::A => TallyView {
                    ammo_a: old(self)@.ammo_a + amount as nat,
                    total_ammo_a: old(self)@.total_ammo_a + amount as nat,
                    ..old(self)@
                },
                Side::B => TallyView {
                    ammo_b: old(self)@.ammo_b + amount as nat,
                    total_ammo_b: old(self)@.total_ammo_b + amount as nat,
                    ..old(self)@
                },
                Side::All => old(self)@,
            }),
    {
        match side {
            Side::A => {
                self.ammo_a = self.ammo_a + amount;
                self.total_ammo_a = self.total_ammo_a + amount;
            },
            Side::B => {
                self.ammo_b = self.ammo_b + amount;
                self.total_ammo_b = self.total_ammo_b + amount;
            },
            _ => {},
        }
    }

    /// Closes the current phase at `end_frame`: its counts start again from
    /// zero, the next phase begins at `end_frame`, and the totals are kept.
    pub fn flush_phase(&mut self, end_frame: u64)
        requires
            tally_wf(old(self)@),
            old(self)@.current_phase < usize::MAX,
        ensures
            tally_wf(final(self)@),
            final(self)@ == (TallyView {
                current_phase: old(self)@.current_phase + 1,
                start_time: end_frame as nat,
                deaths_a: 0,
                deaths_b: 0,
                ammo_a: 0,
                ammo_b: 0,
                ..old(self)@
            }),
    {
        self.deaths_a = 0;
        self.deaths_b = 0;
        self.ammo_a = 0;
        self.ammo_b = 0;
        self.current_phase = self.current_phase + 1;
        self.start_time = end_frame;
    }

    /// Registers a new order and returns its number: one more than the
    /// last order's, starting at one. It becomes the current order.
    pub fn start_new_order(&mut self) -> (res: usize)
        requires
            tally_wf(old(self)@),
            old(self)@.order_counter < usize::MAX,
        ensures
            tally_wf(final(self)@),
            res == old(self)@.order_counter + 1,
            final(self)@ == (TallyView {
                current_order_id: Some(res as nat),
                order_counter: res as nat,
                ..old(self)@
            }),
    {
        self.order_counter = self.order_counter + 1;
        let order_id = self.order_counter;
        self.current_order_id = Some(order_id);
        order_id
    }
}

/// Order numbers only grow: the number a new order gets is larger than the
/// number of the order that was current before it.
pub proof fn lemma_order_ids_grow(before: TallyView)
    requires
        tally_wf(before),
    ensures
        ({
            let id = before.order_counter + 1;
            let after = TallyView { current_order_id: Some(id), order_counter: id, ..before };
            &&& tally_wf(after)
            &&& before.current_order_id matches Some(prev) ==> prev < id
        }),
{
}

/// Closing a phase loses no count: what the game's totals hold is what they
/// held before, and every phase count starts again from zero.
pub proof fn lemma_flush_keeps_totals(before: TallyView, end_frame: nat)
    requires
        tally_wf(before),
    ensures
        ({
            let after = TallyView {
                current_phase: before.current_phase + 1,
                start_time: end_frame,
                deaths_a: 0,
                deaths_b: 0,
                ammo_a: 0,
                ammo_b: 0,
                ..before
            };
            &&& tally_wf(after)
            &&& after.total_deaths_a == before.total_deaths_a
            &&& after.total_deaths_b == before.total_deaths_b
            &&& after.total_ammo_a == before.total_ammo_a
            &&& after.total_ammo_b == before.total_ammo_b
        }),
{
}

} // verus!
