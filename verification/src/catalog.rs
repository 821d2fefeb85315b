//! The generic weighted event catalog: a dense sequence of events, a hash
//! index from event key to its position in the sequence, and a running
//! aggregate of all rates.
//!
//! The catalog supports O(1) insertion, O(1) removal by key (swap-compaction
//! with the last element), O(1) rate update, an exact recomputation of the
//! aggregate, and weighted selection by a linear scan over cumulative sums.

use std::collections::HashMap;
use vstd::prelude::*;

verus! {

broadcast use vstd::std_specs::hash::group_hash_axioms;

/// One schedulable event: a unique key, a non-negative fixed-point rate
/// (the selection weight), and a payload describing what the event does.
pub struct Event<P> {
    pub key: u64,
    pub rate: u64,
    pub payload: P,
}

impl<P: Copy> Clone for Event<P> {
    fn clone(&self) -> (r: Self)
        ensures
            r == *self,
    {
        Event { key: self.key, rate: self.rate, payload: self.payload }
    }
}

impl<P: Copy> Copy for Event<P> {

}

/// Sum of the rates of a sequence of events, as a mathematical integer.
pub open spec fn rate_total<P>(s: Seq<Event<P>>) -> int
    decreases s.len(),
{
    if s.len() == 0 {
        0
    } else {
        rate_total(s.drop_last()) + s.last().rate
    }
}

/// Sum of the rates of the first `i` events: the cumulative weight that the
/// sampling scan has accumulated when it reaches position `i`.
pub open spec fn prefix_total<P>(s: Seq<Event<P>>, i: int) -> int {
    rate_total(s.take(i))
}

/// The weighted-selection rule: position `i` is chosen by draw value `draw`
/// when `i` is the first position whose inclusive cumulative rate sum meets
/// or exceeds the draw.
pub open spec fn is_selected_at<P>(s: Seq<Event<P>>, draw: int, i: int) -> bool {
    &&& 0 <= i < s.len()
    &&& prefix_total(s, i + 1) >= draw
    &&& (i == 0 || prefix_total(s, i) < draw)
}

/// A container mapping each event key to a payload and a rate, with a dense
/// event sequence for O(1) swap-removal and a running aggregate rate.
pub struct WeightedEventCatalog<P> {
    /// Index: each present key maps to the position of its event in `events`.
    pub index: HashMap<u64, usize>,
    /// Dense sequence of events; positions `0..len` are always occupied.
    pub events: Vec<Event<P>>,
    /// Running aggregate: the sum of all events' rates.
    pub total_rate: u64,
}

impl<P: Copy> WeightedEventCatalog<P> {
    /// The index and the sequence agree: every key in the index points at the
    /// event holding that key, and every event's key is indexed at its own
    /// position. This is what makes keys unique and removal by key correct.
    pub open spec fn indexed(self) -> bool {
        &&& forall|i: int|
            0 <= i < self.events@.len() ==> #[trigger] self.index@.contains_key(
                self.events@[i].key,
            ) && self.index@[self.events@[i].key] == i
        &&& forall|k: u64|
            #[trigger] self.index@.contains_key(k) ==> self.index@[k] < self.events@.len()
                && self.events@[self.index@[k] as int].key == k
    }

    /// Full well-formedness: the index agrees with the sequence and the
    /// aggregate equals the exact sum of all rates.
    pub open spec fn wf(self) -> bool {
        &&& self.indexed()
        &&& self.total_rate == rate_total(self.events@)
    }

    /// Whether an event with this key is present.
    pub open spec fn spec_contains(self, key: u64) -> bool {
        self.index@.contains_key(key)
    }

    /// The event stored under a present key.
    pub open spec fn spec_event_of(self, key: u64) -> Event<P>
        recommends
            self.spec_contains(key),
    {
        self.events@[self.index@[key] as int]
    }

    /// The catalog as a mathematical map from key to stored event.
    pub open spec fn as_map(self) -> Map<u64, Event<P>> {
        Map::new(|k: u64| self.spec_contains(k), |k: u64| self.spec_event_of(k))
    }

    /// Creates an empty catalog.
    pub fn new() -> (r: Self)
        ensures
            r.wf(),
            r.events@.len() == 0,
            r.as_map() == Map::<u64, Event<P>>::empty(),
            r.total_rate == 0,
    {
        let r = WeightedEventCatalog { index: HashMap::new(), events: Vec::new(), total_rate: 0 };
        proof {
            assert(r.as_map() =~= Map::<u64, Event<P>>::empty());
        }
        r
    }

    /// Inserts a new event if `key` is not already present; a duplicate
    /// insert is a silent no-op and never changes the stored rate or payload.
    pub fn insert(&mut self, key: u64, rate: u64, payload: P)
        requires
            old(self).wf(),
            old(self).total_rate + rate <= u64::MAX,
        ensures
            final(self).wf(),
            old(self).spec_contains(key) ==> *final(self) == *old(self),
            !old(self).spec_contains(key) ==> {
                &&& final(self).events@ == old(self).events@.push(
                    Event { key, rate, payload },
                )
                &&& final(self).as_map() == old(self).as_map().insert(
                    key,
                    Event { key, rate, payload },
                )
                &&& final(self).total_rate == old(self).total_rate + rate
            },
    {
        match self.index.get(&key) {
            Some(_) => {},
            None => {
                let e = Event { key, rate, payload };
                proof {
                    lemma_rate_total_push(self.events@, e);
                }
                self.events.push(e);
                self.index.insert(key, self.events.len() - 1);
                self.total_rate = self.total_rate + rate;
                proof {
                    let s = old(self).events@;
                    let m = old(self).index@;
                    assert forall|i: int| 0 <= i < self.events@.len() implies #[trigger] self.index@.contains_key(
                        self.events@[i].key,
                    ) && self.index@[self.events@[i].key] == i by {
                        if i < s.len() {
                            assert(m.contains_key(s[i].key) && m[s[i].key] == i);
                        }
                    }
                    assert forall|k: u64| #[trigger] self.index@.contains_key(k) implies self.index@[k]
                        < self.events@.len() && self.events@[self.index@[k] as int].key == k by {
                        if k != key {
                            assert(m.contains_key(k));
                            assert(s[m[k] as int].key == k);
                        }
                    }
                    assert(self.as_map() =~= old(self).as_map().insert(key, e));
                }
            },
        }
    }

    /// Removes the event under `key`, if present, by overwriting its slot
    /// with the last event and shrinking the sequence; absent keys are a
    /// silent no-op. Every other key keeps its stored event.
    pub fn remove(&mut self, key: u64)
        requires
            old(self).wf(),
        ensures
            final(self).wf(),
            !old(self).spec_contains(key) ==> *final(self) == *old(self),
            old(self).spec_contains(key) ==> {
                &&& final(self).events@ == old(self).events@.update(
                    old(self).index@[key] as int,
                    old(self).events@.last(),
                ).drop_last()
                &&& final(self).as_map() == old(self).as_map().remove(key)
                &&& final(self).total_rate == old(self).total_rate - old(self).spec_event_of(
                    key,
                ).rate
            },
    {
        match self.index.get(&key) {
            None => {},
            Some(q) => {
                let pos: usize = *q;
                self.index.remove(&key);
                proof {
                    lemma_rate_total_swap_remove(self.events@, pos as int);
                    lemma_rate_le_total(self.events@, pos as int);
                    assert(old(self).index@.contains_key(self.events@[self.events@.len()
                        - 1].key));
                }
                let removed = self.events.swap_remove(pos);
                if pos != self.events.len() {
                    let moved_key = self.events[pos].key;
                    self.index.insert(moved_key, pos);
                }
                self.total_rate = self.total_rate - removed.rate;
                proof {
                    let s = old(self).events@;
                    let m = old(self).index@;
                    let p = pos as int;
                    assert(s[p].key == key);
                    assert(m[s.last().key] == s.len() - 1);
                    assert forall|i: int| 0 <= i < self.events@.len() implies #[trigger] self.index@.contains_key(
                        self.events@[i].key,
                    ) && self.index@[self.events@[i].key] == i by {
                        if i != p {
                            assert(m.contains_key(s[i].key));
                            assert(m[s[i].key] == i);
                        }
                    }
                    assert forall|k: u64| #[trigger] self.index@.contains_key(k) implies self.index@[k]
                        < self.events@.len() && self.events@[self.index@[k] as int].key == k by {
                        assert(m.contains_key(k));
                        assert(s[m[k] as int].key == k);
                    }
                    assert(self.as_map() =~= old(self).as_map().remove(key));
                }
            },
        }
    }

    /// Recomputes the rate of the event under `key`, if present, adjusting
    /// the aggregate by the delta and overwriting the payload; absent keys
    /// are a silent no-op.
    pub fn update(&mut self, key: u64, rate: u64, payload: P)
        requires
            old(self).wf(),
            old(self).spec_contains(key) ==> old(self).total_rate - old(self).spec_event_of(
                key,
            ).rate + rate <= u64::MAX,
        ensures
            final(self).wf(),
            !old(self).spec_contains(key) ==> *final(self) == *old(self),
            old(self).spec_contains(key) ==> {
                &&& final(self).events@ == old(self).events@.update(
                    old(self).index@[key] as int,
                    Event { key, rate, payload },
                )
                &&& final(self).as_map() == old(self).as_map().insert(
                    key,
                    Event { key, rate, payload },
                )
                &&& final(self).total_rate == old(self).total_rate - old(self).spec_event_of(
                    key,
                ).rate + rate
            },
    {
        match self.index.get(&key) {
            None => {},
            Some(p) => {
                let pos: usize = *p;
                proof {
                    lemma_rate_le_total(self.events@, pos as int);
                    lemma_rate_total_update(self.events@, pos as int, Event { key, rate, payload });
                }
                let old_rate = self.events[pos].rate;
                self.events[pos] = Event { key, rate, payload };
                self.total_rate = self.total_rate - old_rate + rate;
                proof {
                    let s = old(self).events@;
                    let m = old(self).index@;
                    let p = pos as int;
                    assert(s[p].key == key);
                    assert forall|i: int| 0 <= i < self.events@.len() implies #[trigger] self.index@.contains_key(
                        self.events@[i].key,
                    ) && self.index@[self.events@[i].key] == i by {
                        if i != p {
                            assert(m.contains_key(s[i].key) && m[s[i].key] == i);
                        }
                    }
                    assert forall|k: u64| #[trigger] self.index@.contains_key(k) implies self.index@[k]
                        < self.events@.len() && self.events@[self.index@[k] as int].key == k by {
                        assert(m.contains_key(k));
                        assert(s[m[k] as int].key == k);
                    }
                    assert(self.as_map() =~= old(self).as_map().insert(
                        key,
                        Event { key, rate, payload },
                    ));
                }
            },
        }
    }

    /// Recomputes the rate of the event under `key`, if present, adjusting
    /// the aggregate by the delta and leaving the payload as it was; absent
    /// keys are a silent no-op.
    pub fn update_rate(&mut self, key: u64, rate: u64)
        requires
            old(self).wf(),
            old(self).spec_contains(key) ==> old(self).total_rate - old(self).spec_event_of(
                key,
            ).rate + rate <= u64::MAX,
        ensures
            final(self).wf(),
            !old(self).spec_contains(key) ==> *final(self) == *old(self),
            old(self).spec_contains(key) ==> {
                &&& final(self).events@ == old(self).events@.update(
                    old(self).index@[key] as int,
                    Event { key, rate, payload: old(self).spec_event_of(key).payload },
                )
                &&& final(self).as_map() == old(self).as_map().insert(
                    key,
                    Event { key, rate, payload: old(self).spec_event_of(key).payload },
                )
                &&& final(self).total_rate == old(self).total_rate - old(self).spec_event_of(
                    key,
                ).rate + rate
            },
    {
        match self.index.get(&key) {
            None => {},
            Some(p) => {
                let pos: usize = *p;
                let e = Event { key, rate, payload: self.events[pos].payload };
                proof {
                    lemma_rate_le_total(self.events@, pos as int);
                    lemma_rate_total_update(self.events@, pos as int, e);
                }
                let old_rate = self.events[pos].rate;
                self.events[pos] = e;
                self.total_rate = self.total_rate - old_rate + rate;
                proof {
                    let s = old(self).events@;
                    let m = old(self).index@;
                    let p = pos as int;
                    assert(s[p].key == key);
                    assert forall|i: int| 0 <= i < self.events@.len() implies #[trigger] self.index@.contains_key(
                        self.events@[i].key,
                    ) && self.index@[self.events@[i].key] == i by {
                        if i != p {
                            assert(m.contains_key(s[i].key));
                            assert(m[s[i].key] == i);
                        }
                    }
                    assert forall|k: u64| #[trigger] self.index@.contains_key(k) implies self.index@[k]
                        < self.events@.len() && self.events@[self.index@[k] as int].key == k by {
                        assert(m.contains_key(k));
                        assert(s[m[k] as int].key == k);
                    }
                    assert(self.as_map() =~= old(self).as_map().insert(key, e));
                }
            },
        }
    }

    /// Recomputes the aggregate as the exact sum over all current events.
    /// This is the drift-correction operation the driver calls periodically.
    pub fn recompute_total(&mut self)
        requires
            rate_total(old(self).events@) <= u64::MAX,
        ensures
            final(self).events == old(self).events,
            final(self).index == old(self).index,
            final(self).total_rate == rate_total(old(self).events@),
            old(self).indexed() ==> final(self).wf(),
    {
        let mut acc: u64 = 0;
        let mut i: usize = 0;
        proof {
            lemma_prefix_total_full(self.events@);
        }
        while i < self.events.len()
            invariant
                i <= self.events@.len(),
                acc == prefix_total(self.events@, i as int),
                rate_total(self.events@) <= u64::MAX,
            decreases self.events@.len() - i,
        {
            proof {
                lemma_prefix_total_step(self.events@, i as int);
                lemma_prefix_total_monotone(self.events@, i + 1, self.events@.len() as int);
                lemma_prefix_total_full(self.events@);
                lemma_rate_total_nonneg(self.events@.take(i as int));
            }
            acc = acc + self.events[i].rate;
            i = i + 1;
        }
        self.total_rate = acc;
    }

    /// Selects the event for a given draw value: a linear scan accumulates a
    /// running rate sum and stops at the first event whose inclusive
    /// cumulative sum meets or exceeds the draw. Returns `None` exactly when
    /// the catalog holds no events.
    pub fn sample_at(&self, draw: u64) -> (r: Option<Event<P>>)
        requires
            self.wf(),
            draw <= self.total_rate,
        ensures
            r is None <==> self.events@.len() == 0,
            match r {
                None => self.events@.len() == 0,
                Some(e) => exists|i: int|
                    is_selected_at(self.events@, draw as int, i) && e == self.events@[i],
            },
    {
        let ghost s = self.events@;
        let mut cur: u64 = 0;
        let mut i: usize = 0;
        while i < self.events.len()
            invariant
                self.wf(),
                draw <= self.total_rate,
                s == self.events@,
                i <= s.len(),
                cur == prefix_total(s, i as int),
                i > 0 ==> prefix_total(s, i as int) < draw,
            decreases s.len() - i,
        {
            proof {
                lemma_prefix_total_step(s, i as int);
                lemma_prefix_total_monotone(s, i as int + 1, s.len() as int);
                lemma_prefix_total_full(s);
            }
            let next = cur + self.events[i].rate;
            if next >= draw {
                proof {
                    assert(is_selected_at(s, draw as int, i as int));
                }
                return Some(self.events[i]);
            }
            cur = next;
            i = i + 1;
        }
        proof {
            lemma_prefix_total_full(s);
        }
        None
    }

    /// Number of events currently held.
    pub fn length(&self) -> (r: usize)
        ensures
            r == self.events@.len(),
    {
        self.events.len()
    }
}

/// Aggregate consistency: in a well-formed catalog the running aggregate
/// equals the exact sum of all current events' rates. Every catalog
/// operation preserves well-formedness, so this holds after any sequence of
/// insertions, removals and updates.
pub proof fn lemma_total_is_rate_sum<P: Copy>(c: WeightedEventCatalog<P>)
    requires
        c.wf(),
    ensures
        c.total_rate == rate_total(c.events@),
{
}

/// Key uniqueness: in a catalog whose index agrees with its sequence, no two
/// events share a key.
pub proof fn lemma_keys_unique<P: Copy>(c: WeightedEventCatalog<P>)
    requires
        c.indexed(),
    ensures
        forall|i: int, j: int|
            0 <= i < c.events@.len() && 0 <= j < c.events@.len() && i != j
                ==> #[trigger] c.events@[i].key != #[trigger] c.events@[j].key,
{
    assert forall|i: int, j: int|
        0 <= i < c.events@.len() && 0 <= j < c.events@.len() && i != j implies #[trigger] c.events@[i].key
        != #[trigger] c.events@[j].key by {
        assert(c.index@.contains_key(c.events@[i].key));
        assert(c.index@[c.events@[i].key] == i);
        assert(c.index@.contains_key(c.events@[j].key));
        assert(c.index@[c.events@[j].key] == j);
    }
}

/// A draw value selects at most one position: the first-crossing rule is
/// deterministic.
pub proof fn lemma_selected_unique<P>(s: Seq<Event<P>>, draw: int, i: int, j: int)
    requires
        is_selected_at(s, draw, i),
        is_selected_at(s, draw, j),
    ensures
        i == j,
{
    if i < j {
        lemma_prefix_total_monotone(s, i + 1, j);
    } else if j < i {
        lemma_prefix_total_monotone(s, j + 1, i);
    }
}

/// The draw values that select position `i` form exactly the cumulative-rate
/// interval standing above event `i`: draws in `(prefix, prefix + rate]`,
/// with the lower end closed for the first event. The width of that interval
/// is the event's own rate (see `lemma_prefix_total_step`), so over uniform
/// integer draws in `[0, total]` each event is selected with frequency
/// proportional to its rate, up to the one boundary draw at zero.
pub proof fn lemma_selection_measure<P>(s: Seq<Event<P>>, i: int, d: int)
    requires
        0 <= i < s.len(),
    ensures
        is_selected_at(s, d, i) <==> if i == 0 {
            d <= prefix_total(s, 1)
        } else {
            prefix_total(s, i) < d && d <= prefix_total(s, i + 1)
        },
{
}

/// The rate sum of a sequence of events is never negative.
pub proof fn lemma_rate_total_nonneg<P>(s: Seq<Event<P>>)
    ensures
        rate_total(s) >= 0,
    decreases s.len(),
{
    if s.len() > 0 {
        lemma_rate_total_nonneg(s.drop_last());
    }
}

/// Extending a prefix by one event adds exactly that event's rate.
pub proof fn lemma_prefix_total_step<P>(s: Seq<Event<P>>, i: int)
    requires
        0 <= i < s.len(),
    ensures
        prefix_total(s, i + 1) == prefix_total(s, i) + s[i].rate,
{
    assert(s.take(i + 1).drop_last() =~= s.take(i));
    assert(s.take(i + 1).last() == s[i]);
}

/// Cumulative rate sums never decrease along the sequence.
pub proof fn lemma_prefix_total_monotone<P>(s: Seq<Event<P>>, i: int, j: int)
    requires
        0 <= i <= j <= s.len(),
    ensures
        prefix_total(s, i) <= prefix_total(s, j),
    decreases j - i,
{
    if i < j {
        lemma_prefix_total_step(s, j - 1);
        lemma_prefix_total_monotone(s, i, j - 1);
    }
}

/// The full prefix sum is the whole rate sum.
pub proof fn lemma_prefix_total_full<P>(s: Seq<Event<P>>)
    ensures
        prefix_total(s, s.len() as int) == rate_total(s),
{
    assert(s.take(s.len() as int) =~= s);
}

/// Replacing the event at one position changes the rate sum by the rate delta.
pub proof fn lemma_rate_total_update<P>(s: Seq<Event<P>>, i: int, e: Event<P>)
    requires
        0 <= i < s.len(),
    ensures
        rate_total(s.update(i, e)) == rate_total(s) - s[i].rate + e.rate,
    decreases s.len(),
{
    if i == s.len() - 1 {
        assert(s.update(i, e).drop_last() =~= s.drop_last());
        assert(s.update(i, e).last() == e);
    } else {
        assert(s.update(i, e).drop_last() =~= s.drop_last().update(i, e));
        assert(s.update(i, e).last() == s.last());
        lemma_rate_total_update(s.drop_last(), i, e);
    }
}

/// Appending an event adds its rate to the rate sum.
pub proof fn lemma_rate_total_push<P>(s: Seq<Event<P>>, e: Event<P>)
    ensures
        rate_total(s.push(e)) == rate_total(s) + e.rate,
{
    assert(s.push(e).drop_last() =~= s);
    assert(s.push(e).last() == e);
}

/// Swap-compaction (overwrite position `i` with the last event, then drop the
/// last slot) removes exactly the rate of the event that stood at `i`.
pub proof fn lemma_rate_total_swap_remove<P>(s: Seq<Event<P>>, i: int)
    requires
        0 <= i < s.len(),
    ensures
        rate_total(s.update(i, s.last()).drop_last()) == rate_total(s) - s[i].rate,
{
    if i == s.len() - 1 {
        assert(s.update(i, s.last()) =~= s);
    } else {
        lemma_rate_total_update(s, i, s.last());
        assert(s.update(i, s.last()).last() == s.last());
    }
}

/// No single event's rate exceeds the rate sum of the whole sequence.
pub proof fn lemma_rate_le_total<P>(s: Seq<Event<P>>, i: int)
    requires
        0 <= i < s.len(),
    ensures
        s[i].rate <= rate_total(s),
{
    lemma_prefix_total_step(s, i);
    lemma_prefix_total_monotone(s, i + 1, s.len() as int);
    lemma_prefix_total_full(s);
    lemma_rate_total_nonneg(s.take(i));
}

} // verus!
