//! Maps from run numbers, ordered by run.

use vstd::prelude::*;
use std::collections::BTreeMap;
use vstd::std_specs::cmp::OrdSpec;
use vstd::std_specs::iter::IteratorSpec;
use crate::RunNumber;

verus! {

/// Puts `value` under `run`, in place of what was there.
pub fn put<V>(m: &mut BTreeMap<RunNumber, V>, run: RunNumber, value: V)
    ensures
        final(m)@ == old(m)@.insert(run, value),
{
    broadcast use vstd::laws_cmp::group_laws_cmp;

    m.insert(run, value);
}

/// The value under `run`.
pub fn look<V>(m: &BTreeMap<RunNumber, V>, run: RunNumber) -> (r: Option<&V>)
    ensures
        match r {
            Some(v) => m@.contains_key(run) && *v == m@[run],
            None => !m@.contains_key(run),
        },
{
    broadcast use vstd::laws_cmp::group_laws_cmp;
    broadcast use vstd::std_specs::btree::group_btree_axioms;

    m.get(&run)
}

/// Whether a value stands under `run`.
pub fn has<V>(m: &BTreeMap<RunNumber, V>, run: RunNumber) -> (r: bool)
    ensures
        r == m@.contains_key(run),
{
    broadcast use vstd::laws_cmp::group_laws_cmp;
    broadcast use vstd::std_specs::btree::group_btree_axioms;

    m.contains_key(&run)
}

/// Whether `entries` lists every entry of `m` once, by ascending run.
pub open spec fn lists<V>(entries: Seq<(RunNumber, &V)>, m: Map<RunNumber, V>) -> bool {
    &&& forall|i: int, j: int| 0 <= i < j < entries.len() ==> entries[i].0 < entries[j].0
    &&& forall|i: int|
        0 <= i < entries.len() ==> m.contains_key((#[trigger] entries[i]).0) && *entries[i].1
            == m[entries[i].0]
    &&& forall|run: RunNumber|
        m.contains_key(run) ==> exists|i: int| 0 <= i < entries.len() && (#[trigger] entries[i]).0 == run
}

/// The entries of `m` by ascending run.
pub fn ordered_entries<'a, V>(m: &'a BTreeMap<RunNumber, V>) -> (r: Vec<(RunNumber, &'a V)>)
    ensures
        lists(r@, m@),
{
    broadcast use vstd::laws_cmp::group_laws_cmp;
    broadcast use vstd::std_specs::btree::group_btree_axioms;

    let mut out: Vec<(RunNumber, &V)> = Vec::new();
    let ghost items = m.iter().remaining();
    for kv in it: m.iter()
        invariant
            it.seq() == items,
            out@.len() == it.index(),
            forall|i: int| 0 <= i < out@.len() ==> (#[trigger] out@[i]).0 == *items[i].0 && out@[i].1 == items[i].1,
    {
        out.push((*kv.0, kv.1));
    }
    proof {
        let keys = items.map_values(|kv: (&RunNumber, &V)| *kv.0);
        assert forall|i: int, j: int| 0 <= i < j < out@.len() implies out@[i].0 < out@[j].0 by {
            assert(keys[i].cmp_spec(&keys[j]) is Less);
        }
        assert forall|i: int| 0 <= i < out@.len() implies m@.contains_key((#[trigger] out@[i]).0)
            && *out@[i].1 == m@[out@[i].0] by {
            assert(m@.contains_key(*items[i].0));
        }
        assert forall|run: RunNumber| m@.contains_key(run) implies exists|i: int|
            0 <= i < out@.len() && (#[trigger] out@[i]).0 == run by {
            assert(items.contains((&run, &m@[run])));
            let i = choose|i: int| 0 <= i < items.len() && items[i] == (&run, &m@[run]);
            assert(out@[i].0 == run);
        }
    }
    out
}

} // verus!
