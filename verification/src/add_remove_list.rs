//! Catalog of single-site surface events, keyed by lattice position.
//!
//! Each event carries a tag saying how the site changes: removal of a
//! species, exchange of one species for another, or addition of a species at
//! an empty site. Eligibility and the effective energy barrier are driven by
//! the site's coordination number; the barrier is expressed here in integer
//! units of the fixed barrier ratio constant, and the caller turns those
//! units into a fixed-point rate weight.

use crate::catalog::{is_selected_at, rate_total, Event, WeightedEventCatalog};
use crate::rng_source::draw_le;
use rand::rngs::SmallRng;
use vstd::prelude::*;

verus! {

/// The bulk-like saturation coordination number: the reference used both as
/// the eligibility ceiling's basis and as the numerator of the inverse
/// coordination barrier heuristic.
pub const CN_FOR_INV: u8 = 12;

/// Sites with this coordination number or more are never eligible for a
/// surface event.
pub const MAX_ELIGIBLE_CN: u8 = 11;

/// The sentinel species value marking an unoccupied lattice position.
pub const EMPTY_SITE: u8 = 255;

/// The barrier units used for an addition at a site with zero coordination.
pub const ZERO_CN_ADD_UNITS: u64 = 100;

/// How a surface event changes its site: remove the named species, exchange
/// it for another, or add a (placeholder) species at an empty site. The
/// combined remove-and-add form is declared but intentionally unimplemented:
/// inserting it fails fast with an explicit error.
#[derive(Clone, Copy, Debug, PartialEq, Eq, Structural)]
pub enum AddRemoveHow {
    Remove(u8),
    Exchange(u8, u8),
    Add(u8),
    RemoveAndAdd(u8, u8),
}

/// The explicit failure returned when the catalog is asked to perform an
/// operation it does not support.
#[derive(Clone, Copy, Debug, PartialEq, Eq, Structural)]
pub struct UnsupportedOperation;

/// Payload of a surface event: the lattice position it acts on and how the
/// site changes.
#[derive(Clone, Copy)]
pub struct AtomPosChange {
    pub pos: u32,
    pub how: AddRemoveHow,
}

/// Whether `how` is the declared-but-unimplemented combined form.
pub open spec fn spec_is_combined(how: AddRemoveHow) -> bool {
    match how {
        AddRemoveHow::RemoveAndAdd(_, _) => true,
        _ => false,
    }
}

/// Eligibility of a surface event: the site must be under-coordinated, and
/// the occupying species must match the event — the removed or exchanged
/// species for removals and exchanges, the empty-site sentinel for additions.
/// The combined form is never eligible.
pub open spec fn spec_eligible(cn: u8, atom_type: u8, how: AddRemoveHow) -> bool {
    cn < MAX_ELIGIBLE_CN && match how {
        AddRemoveHow::Remove(t) => atom_type == t,
        AddRemoveHow::Exchange(t, _) => atom_type == t,
        AddRemoveHow::Add(_) => atom_type == EMPTY_SITE,
        AddRemoveHow::RemoveAndAdd(_, _) => false,
    }
}

/// The inverse-coordination barrier heuristic, in units of the barrier ratio
/// constant: a more coordinated site costs less, by integer division of the
/// saturation coordination number.
pub open spec fn spec_inverse_cn_units(cn: u8) -> u64
    recommends
        cn != 0,
{
    (CN_FOR_INV / cn) as u64
}

/// Barrier units for inserting a surface event: removals and exchanges scale
/// with the coordination number itself; additions cost the fixed zero-
/// coordination units at an isolated site and the inverse-coordination units
/// otherwise. The combined form has no defined barrier.
pub open spec fn spec_insert_units(how: AddRemoveHow, cn: u8) -> Option<u64> {
    match how {
        AddRemoveHow::Remove(_) => Some(cn as u64),
        AddRemoveHow::Exchange(_, _) => Some(cn as u64),
        AddRemoveHow::Add(_) => Some(
            if cn == 0 {
                ZERO_CN_ADD_UNITS
            } else {
                spec_inverse_cn_units(cn)
            },
        ),
        AddRemoveHow::RemoveAndAdd(_, _) => None,
    }
}

/// Computes the barrier units for inserting a surface event; the caller
/// multiplies by the barrier ratio constant and applies the rate formula.
/// `None` exactly for the unimplemented combined form.
pub fn barrier_units(how: &AddRemoveHow, cn: u8) -> (r: Option<u64>)
    ensures
        r == spec_insert_units(*how, cn),
{
    match how {
        AddRemoveHow::Remove(_) => Some(cn as u64),
        AddRemoveHow::Exchange(_, _) => Some(cn as u64),
        AddRemoveHow::Add(_) => {
            if cn == 0 {
                Some(ZERO_CN_ADD_UNITS)
            } else {
                Some((CN_FOR_INV / cn) as u64)
            }
        },
        AddRemoveHow::RemoveAndAdd(_, _) => None,
    }
}

/// Computes the barrier units used when a surface event's rate is refreshed
/// after a coordination change: always the inverse-coordination heuristic.
pub fn update_barrier_units(cn: u8) -> (r: u64)
    requires
        cn != 0,
    ensures
        r == spec_inverse_cn_units(cn),
{
    (CN_FOR_INV / cn) as u64
}

/// The catalog of surface events: a weighted event catalog whose payloads
/// are `AtomPosChange`s and whose keys are lattice positions.
pub struct AddOrRemove {
    pub catalog: WeightedEventCatalog<AtomPosChange>,
}

impl AddOrRemove {
    /// Index, sequence and aggregate agree; see the catalog's invariant.
    pub open spec fn wf(self) -> bool {
        self.catalog.wf()
    }

    /// Whether a surface event is currently catalogued at this position.
    pub open spec fn spec_contains(self, pos: u32) -> bool {
        self.catalog.spec_contains(pos as u64)
    }

    /// Creates an empty catalog of surface events.
    pub fn new() -> (r: AddOrRemove)
        ensures
            r.wf(),
            r.catalog.events@.len() == 0,
            r.catalog.total_rate == 0,
    {
        AddOrRemove { catalog: WeightedEventCatalog::new() }
    }

    /// Inserts a surface event with rate `k` at `pos` when the event is
    /// eligible there and the position is not already catalogued; an
    /// ineligible or duplicate insert is a silent no-op. Asking for the
    /// unimplemented combined form on an under-coordinated site is an
    /// explicit failure, never a silent no-op.
    pub fn cond_add_item(
        &mut self,
        pos: u32,
        cn: u8,
        atom_type: u8,
        k: u64,
        how: &AddRemoveHow,
    ) -> (r: Result<(), UnsupportedOperation>)
        requires
            old(self).wf(),
            old(self).catalog.total_rate + k <= u64::MAX,
        ensures
            final(self).wf(),
            r is Err <==> cn < MAX_ELIGIBLE_CN && spec_is_combined(*how),
            !spec_eligible(cn, atom_type, *how) ==> *final(self) == *old(self),
            spec_eligible(cn, atom_type, *how) && old(self).spec_contains(pos) ==> *final(self)
                == *old(self),
            spec_eligible(cn, atom_type, *how) && !old(self).spec_contains(pos) ==> {
                &&& final(self).catalog.events@ == old(self).catalog.events@.push(
                    Event { key: pos as u64, rate: k, payload: AtomPosChange { pos, how: *how } },
                )
                &&& final(self).catalog.as_map() == old(self).catalog.as_map().insert(
                    pos as u64,
                    Event { key: pos as u64, rate: k, payload: AtomPosChange { pos, how: *how } },
                )
                &&& final(self).catalog.total_rate == old(self).catalog.total_rate + k
            },
    {
        if cn >= MAX_ELIGIBLE_CN {
            return Ok(());
        }
        match how {
            AddRemoveHow::Remove(remove_atom_type) | AddRemoveHow::Exchange(
                remove_atom_type,
                _,
            ) => {
                if atom_type == *remove_atom_type {
                    self.catalog.insert(pos as u64, k, AtomPosChange { pos, how: *how });
                }
                Ok(())
            },
            AddRemoveHow::Add(_) => {
                if atom_type == EMPTY_SITE {
                    self.catalog.insert(pos as u64, k, AtomPosChange { pos, how: *how });
                }
                Ok(())
            },
            AddRemoveHow::RemoveAndAdd(_, _) => Err(UnsupportedOperation),
        }
    }

    /// Removes the surface event at `pos`, if present, by swap-compaction;
    /// if absent, a silent no-op. Every other position keeps its stored
    /// event.
    pub fn remove_item(&mut self, pos: u32)
        requires
            old(self).wf(),
        ensures
            final(self).wf(),
            !old(self).spec_contains(pos) ==> *final(self) == *old(self),
            old(self).spec_contains(pos) ==> {
                &&& final(self).catalog.as_map() == old(self).catalog.as_map().remove(pos as u64)
                &&& final(self).catalog.total_rate == old(self).catalog.total_rate - old(
                    self,
                ).catalog.spec_event_of(pos as u64).rate
            },
    {
        self.catalog.remove(pos as u64);
    }

    /// Reacts to a coordination change at `pos`: a coordination number of
    /// exactly zero or exactly three disqualifies the site and removes its
    /// event outright; otherwise, if an event exists there, its rate is
    /// refreshed to `k` (derived by the caller from the inverse-coordination
    /// barrier) and the aggregate adjusted by the delta.
    pub fn cond_update_cn(&mut self, pos: u32, cn: u8, k: u64)
        requires
            old(self).wf(),
            cn != 0 && cn != 3 && old(self).spec_contains(pos) ==> old(self).catalog.total_rate
                - old(self).catalog.spec_event_of(pos as u64).rate + k <= u64::MAX,
        ensures
            final(self).wf(),
            !old(self).spec_contains(pos) ==> *final(self) == *old(self),
            (cn == 0 || cn == 3) && old(self).spec_contains(pos) ==> {
                &&& final(self).catalog.as_map() == old(self).catalog.as_map().remove(pos as u64)
                &&& final(self).catalog.total_rate == old(self).catalog.total_rate - old(
                    self,
                ).catalog.spec_event_of(pos as u64).rate
            },
            cn != 0 && cn != 3 && old(self).spec_contains(pos) ==> {
                &&& final(self).catalog.as_map() == old(self).catalog.as_map().insert(
                    pos as u64,
                    Event {
                        key: pos as u64,
                        rate: k,
                        payload: old(self).catalog.spec_event_of(pos as u64).payload,
                    },
                )
                &&& final(self).catalog.total_rate == old(self).catalog.total_rate - old(
                    self,
                ).catalog.spec_event_of(pos as u64).rate + k
            },
    {
        if cn == 0 || cn == 3 {
            self.catalog.remove(pos as u64);
        } else {
            self.catalog.update_rate(pos as u64, k);
        }
    }

    /// Recomputes the aggregate rate as the exact sum over all current
    /// surface events, correcting any drift in the running aggregate.
    pub fn calc_total_cn_change(&mut self)
        requires
            rate_total(old(self).catalog.events@) <= u64::MAX,
        ensures
            final(self).catalog.events == old(self).catalog.events,
            final(self).catalog.index == old(self).catalog.index,
            final(self).catalog.total_rate == rate_total(old(self).catalog.events@),
            old(self).catalog.indexed() ==> final(self).wf(),
    {
        self.catalog.recompute_total();
    }

    /// Draws one surface event at random with probability proportional to
    /// its rate, returning its position, its own rate, and the aggregate
    /// rate at draw time; `None` exactly when the catalog is empty. The
    /// drawn position is the first whose inclusive cumulative rate sum meets
    /// or exceeds a uniform draw in `[0, total]`.
    pub fn choose_ramdom_atom_to_remove(&self, rng_choose: &mut SmallRng) -> (r: Option<
        (u32, u64, u64),
    >)
        requires
            self.wf(),
        ensures
            r is None <==> self.catalog.events@.len() == 0,
            match r {
                None => self.catalog.events@.len() == 0,
                Some(t) => exists|i: int, d: int|
                    {
                        &&& 0 <= d <= self.catalog.total_rate
                        &&& is_selected_at(self.catalog.events@, d, i)
                        &&& t == (
                            self.catalog.events@[i].payload.pos,
                            self.catalog.events@[i].rate,
                            self.catalog.total_rate,
                        )
                    },
            },
    {
        let draw = draw_le(rng_choose, self.catalog.total_rate);
        match self.catalog.sample_at(draw) {
            None => None,
            Some(e) => Some((e.payload.pos, e.rate, self.catalog.total_rate)),
        }
    }

    /// The dense sequence of current surface events, for the driver to walk.
    pub fn iter(&self) -> (r: &Vec<Event<AtomPosChange>>)
        ensures
            r@ == self.catalog.events@,
    {
        &self.catalog.events
    }

    /// Number of surface events currently catalogued.
    pub fn _len(&self) -> (r: usize)
        ensures
            r == self.catalog.events@.len(),
    {
        self.catalog.length()
    }
}

} // verus!
