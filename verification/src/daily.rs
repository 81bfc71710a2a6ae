//! Per-day totals kept in a `BTreeMap` keyed by day number, and their
//! listing in day order.
use vstd::prelude::*;
use std::collections::BTreeMap;
use vstd::std_specs::btree::increasing_seq;
use vstd::std_specs::iter::IteratorSpec;
use vstd::std_specs::cmp::OrdSpec;
use crate::analytics::DayTotal;

verus! {

broadcast use vstd::std_specs::btree::group_btree_axioms, vstd::laws_cmp::group_laws_cmp;

proof fn lemma_increasing_days(keys: Seq<i64>)
    requires
        increasing_seq(keys),
    ensures
        forall|i: int, j: int| 0 <= i < j < keys.len() ==> keys[i] < keys[j],
{
    assert forall|i: int, j: int| 0 <= i < j < keys.len() implies keys[i] < keys[j] by {
        assert(keys[i].cmp_spec(&keys[j]) is Less);
    }
}

/// The entries of a map of day totals, in increasing day order.
pub(crate) fn totals_in_day_order(m: &BTreeMap<i64, u128>) -> (r: Vec<DayTotal>)
    ensures
        forall|i: int, j: int| 0 <= i < j < r@.len() ==> (#[trigger] r@[i]).day < (#[trigger] r@[j]).day,
        forall|i: int|
            0 <= i < r@.len() ==> m@.contains_key((#[trigger] r@[i]).day) && m@[r@[i].day]
                == r@[i].total_seconds,
        forall|d: i64| #[trigger] m@.contains_key(d) ==> exists|i: int| 0 <= i < r@.len() && (#[trigger] r@[i]).day == d,
{
    let mut out: Vec<DayTotal> = Vec::new();
    let entries = m.iter();
    let ghost all = entries.remaining();
    for kv in it: entries
        invariant
            it.seq() == all,
            out@.len() == it.index(),
            forall|j: int|
                0 <= j < it.index() ==> (#[trigger] out@[j]).day == *it.seq()[j].0
                    && out@[j].total_seconds == *it.seq()[j].1,
    {
        let (k, v) = kv;
        out.push(DayTotal { day: *k, total_seconds: *v });
    }
    proof {
        let keys = all.map_values(|kv: (&i64, &u128)| *kv.0);
        lemma_increasing_days(keys);
        assert(forall|i: int| 0 <= i < all.len() ==> #[trigger] keys[i] == out@[i].day);
        assert forall|i: int, j: int| 0 <= i < j < out@.len() implies (#[trigger] out@[i]).day < (
        #[trigger] out@[j]).day by {
            assert(keys[i] == out@[i].day);
            assert(keys[j] == out@[j].day);
        }
        assert forall|d: i64| #[trigger] m@.contains_key(d) implies exists|i: int|
            0 <= i < out@.len() && (#[trigger] out@[i]).day == d by {
            assert(all.contains((&d, &m@[d])));
            let i = choose|i: int| 0 <= i < all.len() && all[i] == (&d, &m@[d]);
            assert(out@[i].day == d);
        }
    }
    out
}

} // verus!
