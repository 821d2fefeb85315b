//! Catalog of directed hop events, keyed by an (origin, destination) pair of
//! lattice sites packed into one 64-bit value.
//!
//! Rates are fixed-point integer weights computed by the caller from the
//! event's energy barrier; the energies are recorded with the event. The
//! energy difference does not participate in the rate — it travels with the
//! event for the driver's use.

use crate::catalog::{is_selected_at, rate_total, Event, WeightedEventCatalog};
use crate::rng_source::draw_le;
use rand::rngs::SmallRng;
use vstd::prelude::*;

verus! {

/// Payload of a hop event: the origin and destination sites and the
/// fixed-point energies (difference and barrier) its rate was derived from.
#[derive(Clone, Copy)]
pub struct Move {
    pub from: u32,
    pub to: u32,
    pub e_diff: i64,
    pub e_barr: i64,
}

/// The key identifying a directed hop: origin in the low 32 bits,
/// destination in the high 32 bits.
pub open spec fn spec_move_key(from: u32, to: u32) -> u64 {
    (from + to * 0x1_0000_0000) as u64
}

/// Packs an (origin, destination) pair into its unique 64-bit key.
pub fn move_key(from: u32, to: u32) -> (r: u64)
    ensures
        r == spec_move_key(from, to),
{
    from as u64 + (to as u64) * 0x1_0000_0000u64
}

/// Distinct (origin, destination) pairs always pack to distinct keys, so a
/// key identifies one hop.
pub proof fn lemma_move_key_injective(f1: u32, t1: u32, f2: u32, t2: u32)
    requires
        spec_move_key(f1, t1) == spec_move_key(f2, t2),
    ensures
        f1 == f2 && t1 == t2,
{
}

/// The catalog of hop events: a weighted event catalog whose payloads are
/// `Move`s and whose keys pack the (origin, destination) pair.
pub struct ListDict {
    pub catalog: WeightedEventCatalog<Move>,
}

impl ListDict {
    /// Index, sequence and aggregate agree; see the catalog's invariant.
    pub open spec fn wf(self) -> bool {
        self.catalog.wf()
    }

    /// Whether a hop from `from` to `to` is currently catalogued.
    pub open spec fn spec_contains(self, from: u32, to: u32) -> bool {
        self.catalog.spec_contains(spec_move_key(from, to))
    }

    /// Creates an empty catalog of hop events. The grid size is a capacity
    /// hint from the driver; it does not affect observable behavior.
    pub fn new(_grid_size: [u32; 3]) -> (r: ListDict)
        ensures
            r.wf(),
            r.catalog.events@.len() == 0,
            r.catalog.total_rate == 0,
    {
        ListDict { catalog: WeightedEventCatalog::new() }
    }

    /// Inserts a hop event with rate `k` if the (origin, destination) pair is
    /// not already catalogued; a duplicate insert is a silent no-op and never
    /// changes the stored rate or energies.
    pub fn add_item(&mut self, move_from: u32, move_to: u32, e_diff: i64, e_barr: i64, k: u64)
        requires
            old(self).wf(),
            old(self).catalog.total_rate + k <= u64::MAX,
        ensures
            final(self).wf(),
            old(self).spec_contains(move_from, move_to) ==> *final(self) == *old(self),
            !old(self).spec_contains(move_from, move_to) ==> {
                &&& final(self).catalog.events@ == old(self).catalog.events@.push(
                    Event {
                        key: spec_move_key(move_from, move_to),
                        rate: k,
                        payload: Move { from: move_from, to: move_to, e_diff, e_barr },
                    },
                )
                &&& final(self).catalog.as_map() == old(self).catalog.as_map().insert(
                    spec_move_key(move_from, move_to),
                    Event {
                        key: spec_move_key(move_from, move_to),
                        rate: k,
                        payload: Move { from: move_from, to: move_to, e_diff, e_barr },
                    },
                )
                &&& final(self).catalog.total_rate == old(self).catalog.total_rate + k
            },
    {
        let key = move_key(move_from, move_to);
        self.catalog.insert(key, k, Move { from: move_from, to: move_to, e_diff, e_barr });
    }

    /// Removes the hop event for this (origin, destination) pair, if present,
    /// by swap-compaction; if absent, a silent no-op. Every other pair keeps
    /// its stored rate and energies.
    pub fn remove_item(&mut self, move_from: u32, move_to: u32)
        requires
            old(self).wf(),
        ensures
            final(self).wf(),
            !old(self).spec_contains(move_from, move_to) ==> *final(self) == *old(self),
            old(self).spec_contains(move_from, move_to) ==> {
                &&& final(self).catalog.as_map() == old(self).catalog.as_map().remove(
                    spec_move_key(move_from, move_to),
                )
                &&& final(self).catalog.total_rate == old(self).catalog.total_rate - old(
                    self,
                ).catalog.spec_event_of(spec_move_key(move_from, move_to)).rate
            },
    {
        let key = move_key(move_from, move_to);
        self.catalog.remove(key);
    }

    /// If a hop event exists for this pair, recomputes its rate to `k`,
    /// adjusts the aggregate by the delta, and overwrites the stored
    /// energies; if absent, a silent no-op.
    pub fn update_k_if_move_exists(
        &mut self,
        move_from: u32,
        move_to: u32,
        e_diff: i64,
        e_barr: i64,
        k: u64,
    )
        requires
            old(self).wf(),
            old(self).spec_contains(move_from, move_to) ==> old(self).catalog.total_rate - old(
                self,
            ).catalog.spec_event_of(spec_move_key(move_from, move_to)).rate + k <= u64::MAX,
        ensures
            final(self).wf(),
            !old(self).spec_contains(move_from, move_to) ==> *final(self) == *old(self),
            old(self).spec_contains(move_from, move_to) ==> {
                &&& final(self).catalog.as_map() == old(self).catalog.as_map().insert(
                    spec_move_key(move_from, move_to),
                    Event {
                        key: spec_move_key(move_from, move_to),
                        rate: k,
                        payload: Move { from: move_from, to: move_to, e_diff, e_barr },
                    },
                )
                &&& final(self).catalog.total_rate == old(self).catalog.total_rate - old(
                    self,
                ).catalog.spec_event_of(spec_move_key(move_from, move_to)).rate + k
            },
    {
        let key = move_key(move_from, move_to);
        self.catalog.update(key, k, Move { from: move_from, to: move_to, e_diff, e_barr });
    }

    /// Recomputes the aggregate rate as the exact sum over all current hop
    /// events, correcting any drift in the running aggregate.
    pub fn calc_total_k_change(&mut self)
        requires
            rate_total(old(self).catalog.events@) <= u64::MAX,
        ensures
            final(self).catalog.events == old(self).catalog.events,
            final(self).catalog.index == old(self).catalog.index,
            final(self).catalog.total_rate == rate_total(old(self).catalog.events@),
            old(self).catalog.indexed() ==> final(self).wf(),
    {
        self.catalog.recompute_total();
    }

    /// Draws one hop event at random with probability proportional to its
    /// rate, returning its origin, destination, energies, the aggregate rate
    /// at draw time, and its own rate; `None` exactly when the catalog is
    /// empty. The drawn position is the first whose inclusive cumulative rate
    /// sum meets or exceeds a uniform draw in `[0, total]`.
    pub fn choose_ramdom_move_kmc(&mut self, rng_choose: &mut SmallRng) -> (r: Option<
        (u32, u32, i64, i64, u64, u64),
    >)
        requires
            old(self).wf(),
        ensures
            *final(self) == *old(self),
            r is None <==> old(self).catalog.events@.len() == 0,
            match r {
                None => old(self).catalog.events@.len() == 0,
                Some(t) => exists|i: int, d: int|
                    {
                        &&& 0 <= d <= old(self).catalog.total_rate
                        &&& is_selected_at(old(self).catalog.events@, d, i)
                        &&& t == (
                            old(self).catalog.events@[i].payload.from,
                            old(self).catalog.events@[i].payload.to,
                            old(self).catalog.events@[i].payload.e_diff,
                            old(self).catalog.events@[i].payload.e_barr,
                            old(self).catalog.total_rate,
                            old(self).catalog.events@[i].rate,
                        )
                    },
            },
    {
        let draw = draw_le(rng_choose, self.catalog.total_rate);
        match self.catalog.sample_at(draw) {
            None => None,
            Some(e) => Some(
                (
                    e.payload.from,
                    e.payload.to,
                    e.payload.e_diff,
                    e.payload.e_barr,
                    self.catalog.total_rate,
                    e.rate,
                ),
            ),
        }
    }

    /// The dense sequence of current hop events, for the driver to walk.
    pub fn iter(&self) -> (r: &Vec<Event<Move>>)
        ensures
            r@ == self.catalog.events@,
    {
        &self.catalog.events
    }

    /// Number of hop events currently catalogued.
    pub fn _len(&self) -> (r: usize)
        ensures
            r == self.catalog.events@.len(),
    {
        self.catalog.length()
    }
}

} // verus!
