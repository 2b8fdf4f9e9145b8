//! Loading payloads: which constant sets to read, and decoding them run by
//! run.

use vstd::prelude::*;
use std::collections::BTreeMap;
use crate::ccdb::context::{Context, DEFAULT_RUN_NUMBER};
use crate::ccdb::data::{is_decoding_of, CCDBDataError, Data};
use crate::ccdb::error::CCDBError;
use crate::ccdb::models::{AssignmentMetaLite, ColumnMeta, ConstantSetMeta};
use crate::runmap::{lists, ordered_entries, put};
use crate::sorting::{insert_distinct, is_ascending};
use crate::{Id, RunNumber};

verus! {

/// The runs that a fetch looks at: those of the context, or run 0 where
/// the context names none.
pub fn requested_runs(context: &Context) -> (runs: Vec<RunNumber>)
    ensures
        runs@ == (if context.runs@.len() == 0 {
            seq![DEFAULT_RUN_NUMBER]
        } else {
            context.runs@
        }),
{
    let mut runs: Vec<RunNumber> = Vec::new();
    if context.runs.len() == 0 {
        runs.push(DEFAULT_RUN_NUMBER);
        return runs;
    }
    let mut i: usize = 0;
    while i < context.runs.len()
        invariant
            i <= context.runs.len(),
            runs@ == context.runs@.take(i as int),
        decreases context.runs.len() - i,
    {
        runs.push(context.runs[i]);
        assert(runs@ == context.runs@.take(i + 1));
        i += 1;
    }
    assert(context.runs@.take(context.runs@.len() as int) == context.runs@);
    runs
}

/// Whether some assignment refers to the constant set `id`.
pub open spec fn is_referenced(assignments: Map<RunNumber, AssignmentMetaLite>, id: Id) -> bool {
    exists|run: RunNumber|
        assignments.contains_key(run) && (#[trigger] assignments[run]).constant_set_id == id
}

/// The identifiers of the constant sets that the assignments refer to,
/// each once, in ascending order.
pub fn distinct_constant_sets(assignments: &BTreeMap<RunNumber, AssignmentMetaLite>) -> (ids: Vec<Id>)
    ensures
        is_ascending(ids@),
        forall|id: Id| ids@.contains(id) <==> is_referenced(assignments@, id),
{
    let entries = ordered_entries(assignments);
    let mut ids: Vec<Id> = Vec::new();
    let mut i: usize = 0;
    while i < entries.len()
        invariant
            i <= entries.len(),
            lists(entries@, assignments@),
            is_ascending(ids@),
            forall|id: Id|
                ids@.contains(id) <==> exists|k: int|
                    0 <= k < i && (#[trigger] entries@[k]).1.constant_set_id == id,
        decreases entries.len() - i,
    {
        let ghost before = ids@;
        let id = entries[i].1.constant_set_id;
        insert_distinct(&mut ids, id);
        proof {
            assert forall|x: Id|
                ids@.contains(x) <==> exists|k: int|
                    0 <= k < i + 1 && (#[trigger] entries@[k]).1.constant_set_id == x by {
                assert(ids@.to_set().contains(x) <==> ids@.contains(x));
                assert(before.to_set().contains(x) <==> before.contains(x));
                if before.contains(x) {
                    let k = choose|k: int|
                        0 <= k < i && (#[trigger] entries@[k]).1.constant_set_id == x;
                    assert(entries@[k].1.constant_set_id == x);
                }
                if x == id {
                    assert(entries@[i as int].1.constant_set_id == x);
                }
                if exists|k: int| 0 <= k < i + 1 && (#[trigger] entries@[k]).1.constant_set_id == x {
                    let k = choose|k: int|
                        0 <= k < i + 1 && (#[trigger] entries@[k]).1.constant_set_id == x;
                    if k < i {
                        assert(before.contains(x));
                    }
                }
            }
        }
        i += 1;
    }
    proof {
        assert forall|id: Id| ids@.contains(id) <==> is_referenced(assignments@, id) by {
            if ids@.contains(id) {
                let k = choose|k: int|
                    0 <= k < entries@.len() && (#[trigger] entries@[k]).1.constant_set_id == id;
                assert(assignments@.contains_key(entries@[k].0));
                assert(assignments@[entries@[k].0].constant_set_id == id);
            }
            if is_referenced(assignments@, id) {
                let run = choose|run: RunNumber|
                    assignments@.contains_key(run) && (#[trigger] assignments@[run]).constant_set_id
                        == id;
                let k = choose|k: int| 0 <= k < entries@.len() && (#[trigger] entries@[k]).0 == run;
                assert(entries@[k].1.constant_set_id == id);
            }
        }
    }
    ids
}

/// The place of the last of the first `n` constant sets with identifier
/// `id`, or -1.
pub open spec fn set_index(sets: Seq<ConstantSetMeta>, id: Id, n: nat) -> int
    decreases n,
{
    if n == 0 || n > sets.len() {
        -1
    } else if sets[n - 1].id == id {
        n - 1
    } else {
        set_index(sets, id, (n - 1) as nat)
    }
}

fn find_set(sets: &Vec<ConstantSetMeta>, id: Id) -> (r: Option<usize>)
    ensures
        match r {
            Some(at) => at == set_index(sets@, id, sets@.len()) && at < sets@.len(),
            None => set_index(sets@, id, sets@.len()) == -1,
        },
{
    let mut i: usize = sets.len();
    while i > 0
        invariant
            0 <= i <= sets.len(),
            set_index(sets@, id, sets@.len()) == set_index(sets@, id, i as nat),
        decreases i,
    {
        if sets[i - 1].id == id {
            return Some(i - 1);
        }
        i -= 1;
    }
    None
}

/// The vault of the constant set that the assignment of `run` refers to,
/// if the run has an assignment and the set was read.
pub open spec fn vault_of(
    assignments: Map<RunNumber, AssignmentMetaLite>,
    sets: Seq<ConstantSetMeta>,
    run: RunNumber,
) -> Option<Seq<char>> {
    if assignments.contains_key(run) && set_index(
        sets,
        assignments[run].constant_set_id,
        sets.len(),
    ) >= 0 {
        Some(sets[set_index(sets, assignments[run].constant_set_id, sets.len())].vault@)
    } else {
        None
    }
}

/// Decodes the payload of every run that has an assignment whose constant
/// set is among `sets`. The runs are decoded in ascending order; the first
/// payload that does not decode is reported, and nothing is returned.
pub fn decode_payloads(
    assignments: &BTreeMap<RunNumber, AssignmentMetaLite>,
    sets: &Vec<ConstantSetMeta>,
    columns: &[ColumnMeta],
    n_rows: usize,
) -> (r: Result<BTreeMap<RunNumber, Data>, CCDBError>)
    requires
        n_rows * columns@.len() <= usize::MAX,
    ensures
        match r {
            Ok(payloads) => {
                &&& forall|run: RunNumber|
                    #[trigger] payloads@.contains_key(run) <==> vault_of(assignments@, sets@, run)
                        is Some
                &&& forall|run: RunNumber|
                    #[trigger] payloads@.contains_key(run) ==> is_decoding_of(
                        Ok(payloads@[run]),
                        vault_of(assignments@, sets@, run)->Some_0,
                        columns@,
                        n_rows as nat,
                    )
            },
            Err(CCDBError::CCDBDataError(e)) => exists|run: RunNumber|
                #[trigger] vault_of(assignments@, sets@, run) is Some && is_decoding_of(
                    Err(e),
                    vault_of(assignments@, sets@, run)->Some_0,
                    columns@,
                    n_rows as nat,
                ) && forall|earlier: RunNumber|
                    earlier < run && #[trigger] vault_of(assignments@, sets@, earlier) is Some
                        ==> decodes(vault_of(assignments@, sets@, earlier)->Some_0, columns@, n_rows as nat),
            Err(_) => false,
        },
{
    let entries = ordered_entries(assignments);
    let mut payloads: BTreeMap<RunNumber, Data> = BTreeMap::new();
    let mut i: usize = 0;
    while i < entries.len()
        invariant
            i <= entries.len(),
            lists(entries@, assignments@),
            n_rows * columns@.len() <= usize::MAX,
            forall|run: RunNumber|
                #[trigger] payloads@.contains_key(run) <==> vault_of(assignments@, sets@, run) is Some
                    && exists|k: int| 0 <= k < i && (#[trigger] entries@[k]).0 == run,
            forall|run: RunNumber|
                #[trigger] payloads@.contains_key(run) ==> is_decoding_of(
                    Ok(payloads@[run]),
                    vault_of(assignments@, sets@, run)->Some_0,
                    columns@,
                    n_rows as nat,
                ),
        decreases entries.len() - i,
    {
        let run = entries[i].0;
        let meta = entries[i].1;
        let ghost before = payloads@;
        assert(assignments@.contains_key(run) && *meta == assignments@[run]);
        match find_set(sets, meta.constant_set_id) {
            Some(at) => {
                match Data::from_vault(sets[at].vault.as_str(), columns, n_rows) {
                    Ok(data) => {
                        put(&mut payloads, run, data);
                    },
                    Err(e) => {
                        proof {
                            assert forall|earlier: RunNumber|
                                earlier < run && #[trigger] vault_of(assignments@, sets@, earlier)
                                    is Some implies decodes(
                                vault_of(assignments@, sets@, earlier)->Some_0,
                                columns@,
                                n_rows as nat,
                            ) by {
                                let k = choose|k: int|
                                    0 <= k < entries@.len() && (#[trigger] entries@[k]).0 == earlier;
                                if k >= i {
                                    if k > i {
                                        assert(entries@[i as int].0 < entries@[k].0);
                                    }
                                }
                                assert(entries@[k].0 == earlier);
                                assert(before.contains_key(earlier));
                                assert(is_decoding_of(
                                    Ok(before[earlier]),
                                    vault_of(assignments@, sets@, earlier)->Some_0,
                                    columns@,
                                    n_rows as nat,
                                ));
                            }
                            assert(vault_of(assignments@, sets@, run) is Some);
                            assert(is_decoding_of(
                                Err(e),
                                vault_of(assignments@, sets@, run)->Some_0,
                                columns@,
                                n_rows as nat,
                            ));
                        }
                        return Err(CCDBError::CCDBDataError(e));
                    },
                }
            },
            None => {},
        }
        proof {
            assert forall|x: RunNumber|
                #[trigger] payloads@.contains_key(x) <==> vault_of(assignments@, sets@, x) is Some
                    && exists|k: int| 0 <= k < i + 1 && (#[trigger] entries@[k]).0 == x by {
                if before.contains_key(x) {
                    let k = choose|k: int| 0 <= k < i && (#[trigger] entries@[k]).0 == x;
                    assert(entries@[k].0 == x);
                }
                if x == run {
                    assert(entries@[i as int].0 == x);
                }
                if exists|k: int| 0 <= k < i + 1 && (#[trigger] entries@[k]).0 == x {
                    let k = choose|k: int| 0 <= k < i + 1 && (#[trigger] entries@[k]).0 == x;
                    if k < i {
                        assert(entries@[k].0 == x);
                    }
                }
            }
        }
        i += 1;
    }
    proof {
        assert forall|run: RunNumber|
            #[trigger] payloads@.contains_key(run) <==> vault_of(assignments@, sets@, run) is Some by {
            if vault_of(assignments@, sets@, run) is Some {
                let k = choose|k: int| 0 <= k < entries@.len() && (#[trigger] entries@[k]).0 == run;
                assert(entries@[k].0 == run);
            }
        }
    }
    Ok(payloads)
}

/// Whether the vault decodes with the given columns and row count.
pub open spec fn decodes(vault: Seq<char>, columns: Seq<ColumnMeta>, n_rows: nat) -> bool {
    exists|d: Data| is_decoding_of(Ok(d), vault, columns, n_rows)
}

} // verus!
