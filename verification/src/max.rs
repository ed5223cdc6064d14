//! The combination algebra and the incremental per-key maximum aggregator.
//!
//! `combine` merges two candidate values for the same key by keeping the
//! larger one. It is commutative, associative and idempotent, which is what
//! makes it safe to fold partial per-shard maxima together in any order.
//! A retraction never lowers a running maximum: the weight of a fact only
//! decides whether the fact is folded in at all (a zero weight is inert),
//! so the aggregator suits metrics whose true value only ever grows.

use std::collections::HashMap;
use vstd::prelude::*;

verus! {

broadcast use vstd::std_specs::hash::group_hash_axioms;

/// The non-strict maximum of two candidate values.
pub open spec fn spec_combine(a: u64, b: u64) -> u64 {
    if a < b {
        b
    } else {
        a
    }
}

/// Merge two candidate values for the same key, keeping the larger.
pub fn combine(a: u64, b: u64) -> (r: u64)
    ensures
        r == spec_combine(a, b),
        r >= a,
        r >= b,
        r == a || r == b,
{
    if a < b {
        b
    } else {
        a
    }
}

/// `combine` is commutative: the two operands may arrive in either order.
pub proof fn lemma_combine_commutative(a: u64, b: u64)
    ensures
        spec_combine(a, b) == spec_combine(b, a),
{
}

/// `combine` is associative: partial results over disjoint shards of the
/// fact stream may be merged with any grouping.
pub proof fn lemma_combine_associative(a: u64, b: u64, c: u64)
    ensures
        spec_combine(spec_combine(a, b), c) == spec_combine(a, spec_combine(b, c)),
{
}

/// `combine` is idempotent: folding the same value in twice changes nothing.
pub proof fn lemma_combine_idempotent(a: u64)
    ensures
        spec_combine(a, a) == a,
{
}

/// A running maximum for one key, as a merge-friendly wrapper: merging
/// absorbs the larger of the two candidates and never goes down.
#[derive(Clone, Copy, Debug, PartialEq, Eq, Structural)]
pub struct Max {
    pub value: u64,
}

impl Max {
    /// Absorb another partial maximum for the same key.
    pub fn merge(&mut self, rhs: &Max)
        ensures
            final(self).value == spec_combine(old(self).value, rhs.value),
    {
        if self.value < rhs.value {
            self.value = rhs.value;
        }
    }
}

/// One input event: a value for a key, with a signed multiplicity.
/// A positive weight inserts the fact, a negative one retracts it, and a
/// zero weight is inert. The algebra reads only whether the weight is zero.
#[derive(Clone, Copy, Debug, PartialEq, Eq, Structural)]
pub struct WeightedFact {
    pub key: u64,
    pub value: u64,
    pub weight: i64,
}

/// The per-key state after one fact is folded in: an inert fact leaves the
/// state alone; any other fact combines its value into the entry for its
/// key, creating the entry on the first fact for that key.
pub open spec fn spec_ingest(m: Map<u64, u64>, fact: WeightedFact) -> Map<u64, u64> {
    if fact.weight == 0 {
        m
    } else if m.contains_key(fact.key) {
        m.insert(fact.key, spec_combine(m[fact.key], fact.value))
    } else {
        m.insert(fact.key, fact.value)
    }
}

/// The per-key state after a whole sequence of facts, in ingestion order.
pub open spec fn spec_ingest_all(m: Map<u64, u64>, facts: Seq<WeightedFact>) -> Map<u64, u64>
    decreases facts.len(),
{
    if facts.len() == 0 {
        m
    } else {
        spec_ingest_all(spec_ingest(m, facts[0]), facts.drop_first())
    }
}

/// What a lookup in per-key state `m` returns for `key`.
pub open spec fn spec_query(m: Map<u64, u64>, key: u64) -> Option<u64> {
    if m.contains_key(key) {
        Some(m[key])
    } else {
        None
    }
}

/// The maximum of the values carried by a nonempty sequence of facts.
pub open spec fn spec_values_max(facts: Seq<WeightedFact>) -> u64
    recommends
        facts.len() > 0,
    decreases facts.len(),
{
    if facts.len() <= 1 {
        facts[0].value
    } else {
        spec_combine(facts[0].value, spec_values_max(facts.drop_first()))
    }
}

/// The per-key high-water marks over every fact ever ingested.
pub struct RunningMax {
    entries: HashMap<u64, u64>,
}

impl View for RunningMax {
    type V = Map<u64, u64>;

    closed spec fn view(&self) -> Map<u64, u64> {
        self.entries@
    }
}

impl RunningMax {
    /// An aggregator that has seen no facts.
    pub fn new() -> (r: RunningMax)
        ensures
            r@ == Map::<u64, u64>::empty(),
    {
        RunningMax { entries: HashMap::new() }
    }

    /// Fold one fact into the entry for its key. No other entry moves, and
    /// the entry for the fact's key never goes down.
    pub fn ingest(&mut self, fact: WeightedFact)
        ensures
            final(self)@ == spec_ingest(old(self)@, fact),
    {
        if fact.weight == 0 {
            return;
        }
        let current = match self.entries.get(&fact.key) {
            Some(v) => Some(*v),
            None => None,
        };
        match current {
            Some(cur) => {
                let merged = combine(cur, fact.value);
                self.entries.insert(fact.key, merged);
            }
            None => {
                self.entries.insert(fact.key, fact.value);
            }
        }
    }

    /// The current maximum for a key, or nothing if the key was never seen.
    pub fn query(&self, key: u64) -> (r: Option<u64>)
        ensures
            r == spec_query(self@, key),
    {
        match self.entries.get(&key) {
            Some(v) => Some(*v),
            None => None,
        }
    }
}

/// Folding facts for one key into a state that already holds that key
/// combines the maximum of their values into the existing entry.
proof fn lemma_ingest_all_from(m: Map<u64, u64>, facts: Seq<WeightedFact>, k: u64)
    requires
        m.contains_key(k),
        facts.len() > 0,
        forall|i: int| 0 <= i < facts.len() ==> (#[trigger] facts[i]).key == k,
        forall|i: int| 0 <= i < facts.len() ==> (#[trigger] facts[i]).weight != 0,
    ensures
        spec_ingest_all(m, facts).contains_key(k),
        spec_ingest_all(m, facts)[k] == spec_combine(m[k], spec_values_max(facts)),
    decreases facts.len(),
{
    let m1 = spec_ingest(m, facts[0]);
    if facts.len() == 1 {
        assert(spec_ingest_all(m, facts) == spec_ingest_all(m1, facts.drop_first()));
    } else {
        lemma_ingest_all_from(m1, facts.drop_first(), k);
    }
}

/// After any sequence of insert-only facts for a key, starting from an
/// empty state, the query for that key returns the maximum of every value
/// that was inserted.
pub proof fn lemma_insert_only_query_is_max(facts: Seq<WeightedFact>, k: u64)
    requires
        facts.len() > 0,
        forall|i: int| 0 <= i < facts.len() ==> (#[trigger] facts[i]).key == k,
        forall|i: int| 0 <= i < facts.len() ==> (#[trigger] facts[i]).weight > 0,
    ensures
        spec_query(spec_ingest_all(Map::<u64, u64>::empty(), facts), k) == Some(
            spec_values_max(facts),
        ),
{
    let m0 = Map::<u64, u64>::empty();
    let m1 = spec_ingest(m0, facts[0]);
    assert(m1 == m0.insert(k, facts[0].value));
    if facts.len() == 1 {
        assert(spec_ingest_all(m0, facts) == spec_ingest_all(m1, facts.drop_first()));
    } else {
        lemma_ingest_all_from(m1, facts.drop_first(), k);
    }
}

/// One fact never lowers any existing entry, whatever its key or weight.
pub proof fn lemma_ingest_monotone(m: Map<u64, u64>, fact: WeightedFact, k: u64)
    requires
        m.contains_key(k),
    ensures
        spec_ingest(m, fact).contains_key(k),
        spec_ingest(m, fact)[k] >= m[k],
{
}

/// Across any further sequence of facts, insertions and retractions alike,
/// a key's queried maximum never decreases in ingestion order.
pub proof fn lemma_query_never_decreases(m: Map<u64, u64>, facts: Seq<WeightedFact>, k: u64)
    requires
        m.contains_key(k),
    ensures
        spec_ingest_all(m, facts).contains_key(k),
        spec_ingest_all(m, facts)[k] >= m[k],
    decreases facts.len(),
{
    if facts.len() > 0 {
        lemma_ingest_monotone(m, facts[0], k);
        lemma_query_never_decreases(spec_ingest(m, facts[0]), facts.drop_first(), k);
    }
}

} // verus!
