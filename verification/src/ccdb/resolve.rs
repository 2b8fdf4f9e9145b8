//! Which assignment applies to which run.
//!
//! The variations of an inheritance chain are asked in turn, the most
//! specific first. A run is settled by the first variation that has an
//! eligible assignment for it; among the eligible assignments of one
//! variation the one created last wins.

use vstd::prelude::*;
use std::collections::BTreeMap;
use crate::ccdb::error::CCDBError;
use crate::ccdb::models::AssignmentMetaLite;
use crate::runmap::{has, put};
use crate::sorting::{insert_distinct, is_ascending, lemma_push_contains};
use crate::timestamp::{is_reading_of, lemma_later_than_total, parse_timestamp, read_timestamp, Civil, ParseTimestampError, Timestamp};
use crate::RunNumber;

verus! {

/// One assignment of a variation with the run range that it holds for.
#[derive(Debug, Clone)]
pub struct AssignmentRow {
    pub meta: AssignmentMetaLite,
    pub run_min: i64,
    pub run_max: i64,
}

/// Whether the run range of `row` holds `run`.
pub open spec fn covers(row: AssignmentRow, run: RunNumber) -> bool {
    row.run_min <= run <= row.run_max
}

/// Whether the creation time of `row` can be read.
pub open spec fn readable(row: AssignmentRow) -> bool {
    read_timestamp(row.meta.created@) is Instant
}

/// The creation time of `row`.
pub open spec fn created_of(row: AssignmentRow) -> Civil {
    read_timestamp(row.meta.created@)->Instant_0
}

/// Whether `row` may apply to `run` as of `t`: its range holds the run and
/// it was not created later than `t`.
pub open spec fn eligible(row: AssignmentRow, run: RunNumber, t: Civil) -> bool {
    covers(row, run) && !created_of(row).later_than(t)
}

/// The place of the assignment among the first `n` rows that applies to
/// `run` as of `t`: the eligible one created last, the earlier row of two
/// created at the same time; -1 where none is eligible.
pub open spec fn best_row(rows: Seq<AssignmentRow>, run: RunNumber, t: Civil, n: nat) -> int
    decreases n,
{
    if n == 0 || n > rows.len() {
        -1
    } else {
        let before = best_row(rows, run, t, (n - 1) as nat);
        if eligible(rows[n - 1], run, t) && (before < 0 || created_of(rows[n - 1]).later_than(
            created_of(rows[before]),
        )) {
            n - 1
        } else {
            before
        }
    }
}

/// The place of the first of the first `n` rows whose range holds `run`
/// and whose creation time cannot be read, or `n`.
pub open spec fn first_unreadable(rows: Seq<AssignmentRow>, run: RunNumber, n: nat) -> nat
    decreases n,
{
    if n == 0 {
        0
    } else {
        let before = first_unreadable(rows, run, (n - 1) as nat);
        if before < n - 1 {
            before
        } else if covers(rows[n - 1], run) && !readable(rows[n - 1]) {
            (n - 1) as nat
        } else {
            n
        }
    }
}

proof fn lemma_first_unreadable_stays(rows: Seq<AssignmentRow>, run: RunNumber, found: nat, n: nat)
    requires
        first_unreadable(rows, run, found) < found,
        found <= n,
    ensures
        first_unreadable(rows, run, n) == first_unreadable(rows, run, found),
    decreases n,
{
    if found < n {
        lemma_first_unreadable_stays(rows, run, found, (n - 1) as nat);
    }
}

/// The assignment that applies is eligible, and no eligible assignment
/// was created later; where none applies, none is eligible.
pub proof fn lemma_best_row_is_latest(rows: Seq<AssignmentRow>, run: RunNumber, t: Civil, n: nat)
    requires
        n <= rows.len(),
    ensures
        -1 <= best_row(rows, run, t, n) < n,
        best_row(rows, run, t, n) >= 0 ==> eligible(rows[best_row(rows, run, t, n)], run, t),
        forall|j: int|
            0 <= j < n && eligible(#[trigger] rows[j], run, t) ==> best_row(rows, run, t, n) >= 0
                && !created_of(rows[j]).later_than(created_of(rows[best_row(rows, run, t, n)])),
    decreases n,
{
    if n > 0 {
        lemma_best_row_is_latest(rows, run, t, (n - 1) as nat);
        let before = best_row(rows, run, t, (n - 1) as nat);
        let now = best_row(rows, run, t, n);
        assert forall|j: int| 0 <= j < n && eligible(#[trigger] rows[j], run, t) implies now >= 0
            && !created_of(rows[j]).later_than(created_of(rows[now])) by {
            lemma_later_than_total(created_of(rows[j]), created_of(rows[now]), created_of(rows[j]));
            if j < n - 1 {
                lemma_later_than_total(
                    created_of(rows[j]),
                    created_of(rows[before]),
                    created_of(rows[now]),
                );
                lemma_later_than_total(
                    created_of(rows[now]),
                    created_of(rows[before]),
                    created_of(rows[j]),
                );
            }
        }
    }
}

/// Finds the assignment among `rows` that applies to `run` as of
/// `timestamp`.
pub fn pick(rows: &Vec<AssignmentRow>, run: RunNumber, timestamp: &Timestamp) -> (r: Result<
    Option<usize>,
    ParseTimestampError,
>)
    ensures
        match r {
            Ok(found) => first_unreadable(rows@, run, rows@.len()) == rows@.len() && (match found {
                Some(at) => at == best_row(rows@, run, timestamp@, rows@.len()) && at < rows@.len(),
                None => best_row(rows@, run, timestamp@, rows@.len()) == -1,
            }),
            Err(e) => first_unreadable(rows@, run, rows@.len()) < rows@.len() && is_reading_of(
                Err(e),
                rows@[first_unreadable(rows@, run, rows@.len()) as int].meta.created@,
            ),
        },
{
    let mut best: Option<usize> = None;
    let mut best_created: Option<Timestamp> = None;
    let mut k: usize = 0;
    while k < rows.len()
        invariant
            k <= rows.len(),
            first_unreadable(rows@, run, k as nat) == k,
            match best {
                Some(at) => at == best_row(rows@, run, timestamp@, k as nat) && at < k
                    && best_created is Some && best_created->Some_0@ == created_of(rows@[at as int]),
                None => best_row(rows@, run, timestamp@, k as nat) == -1 && best_created is None,
            },
        decreases rows.len() - k,
    {
        let row = &rows[k];
        if row.run_min <= run && run <= row.run_max {
            let created = match parse_timestamp(row.meta.created.as_str()) {
                Ok(t) => t,
                Err(e) => {
                    proof {
                        lemma_first_unreadable_stays(rows@, run, (k + 1) as nat, rows@.len());
                    }
                    return Err(e);
                },
            };
            assert(created@ == created_of(rows@[k as int]));
            if !created.is_after(timestamp) {
                let later = match best_created {
                    Some(c) => created.is_after(&c),
                    None => true,
                };
                if later {
                    best = Some(k);
                    best_created = Some(created);
                }
            }
        }
        k += 1;
    }
    Ok(best)
}

/// The assignments found after the rows of one more variation were looked
/// at: what was found stays; a run that was asked for and not yet settled
/// gets the assignment of `rows` that applies to it, if there is one.
pub open spec fn absorbed(
    found: Map<RunNumber, AssignmentMetaLite>,
    asked: Set<RunNumber>,
    rows: Seq<AssignmentRow>,
    t: Civil,
) -> Map<RunNumber, AssignmentMetaLite> {
    Map::new(
        |run: RunNumber|
            found.contains_key(run) || (asked.contains(run) && best_row(rows, run, t, rows.len())
                >= 0),
        |run: RunNumber|
            if found.contains_key(run) {
                found[run]
            } else {
                rows[best_row(rows, run, t, rows.len())].meta
            },
    )
}

/// Whether some run that was asked for and is not settled lies in the
/// range of a row whose creation time cannot be read.
pub open spec fn blocked(
    found: Map<RunNumber, AssignmentMetaLite>,
    asked: Set<RunNumber>,
    rows: Seq<AssignmentRow>,
) -> bool {
    exists|run: RunNumber|
        asked.contains(run) && !found.contains_key(run) && #[trigger] first_unreadable(
            rows,
            run,
            rows.len(),
        ) < rows.len()
}

/// The assignments found after the rows of the first `n` variations of a
/// chain were looked at in order.
pub open spec fn settled(
    asked: Set<RunNumber>,
    batches: Seq<Seq<AssignmentRow>>,
    t: Civil,
    n: nat,
) -> Map<RunNumber, AssignmentMetaLite>
    decreases n,
{
    if n == 0 || n > batches.len() {
        Map::<RunNumber, AssignmentMetaLite>::empty()
    } else {
        absorbed(settled(asked, batches, t, (n - 1) as nat), asked, batches[n - 1], t)
    }
}

/// The assignment that `run` inherits from the first `n` variations of a
/// chain: that of the first variation with an assignment that applies.
pub open spec fn inherited(batches: Seq<Seq<AssignmentRow>>, run: RunNumber, t: Civil, n: nat) -> Option<
    AssignmentMetaLite,
>
    decreases n,
{
    if n == 0 || n > batches.len() {
        None
    } else {
        match inherited(batches, run, t, (n - 1) as nat) {
            Some(a) => Some(a),
            None => {
                let rows = batches[n - 1];
                let at = best_row(rows, run, t, rows.len());
                if at >= 0 {
                    Some(rows[at].meta)
                } else {
                    None
                }
            },
        }
    }
}

/// Variation inheritance: looking at the variations of a chain in order
/// gives every run that was asked for the assignment of the first variation
/// that has one for it, and gives no other run anything. A more specific
/// variation so overrides its ancestors for exactly the runs that it has an
/// assignment for.
pub proof fn lemma_inheritance(
    asked: Set<RunNumber>,
    batches: Seq<Seq<AssignmentRow>>,
    t: Civil,
    n: nat,
    run: RunNumber,
)
    requires
        n <= batches.len(),
    ensures
        settled(asked, batches, t, n).contains_key(run) <==> asked.contains(run) && inherited(
            batches,
            run,
            t,
            n,
        ) is Some,
        settled(asked, batches, t, n).contains_key(run) ==> Some(
            settled(asked, batches, t, n)[run],
        ) == inherited(batches, run, t, n),
    decreases n,
{
    if n > 0 {
        lemma_inheritance(asked, batches, t, (n - 1) as nat, run);
    }
}

/// The state of an assignment resolution: the runs that were asked for and
/// the assignments found so far.
pub struct Resolution {
    min_run: RunNumber,
    max_run: RunNumber,
    all: Vec<RunNumber>,
    unresolved: Vec<RunNumber>,
    found: BTreeMap<RunNumber, AssignmentMetaLite>,
}

impl Resolution {
    #[verifier::type_invariant]
    spec fn consistent(self) -> bool {
        &&& is_ascending(self.all@)
        &&& is_ascending(self.unresolved@)
        &&& forall|run: RunNumber|
            self.unresolved@.contains(run) <==> self.all@.contains(run) && !self.found@.contains_key(
                run,
            )
        &&& forall|run: RunNumber| self.found@.contains_key(run) ==> self.all@.contains(run)
        &&& forall|i: int|
            0 <= i < self.all@.len() ==> self.min_run <= #[trigger] self.all@[i] <= self.max_run
        &&& self.all@.len() > 0 ==> self.all@.contains(self.min_run) && self.all@.contains(
            self.max_run,
        )
    }

    /// The runs that were asked for.
    pub closed spec fn asked(&self) -> Set<RunNumber> {
        self.all@.to_set()
    }

    /// The assignments found so far.
    pub closed spec fn found(&self) -> Map<RunNumber, AssignmentMetaLite> {
        self.found@
    }

    /// Begins a resolution for `runs`.
    pub fn start(runs: &Vec<RunNumber>) -> (r: Resolution)
        ensures
            r.asked() == runs@.to_set(),
            r.found() == Map::<RunNumber, AssignmentMetaLite>::empty(),
    {
        let mut all: Vec<RunNumber> = Vec::new();
        let mut unresolved: Vec<RunNumber> = Vec::new();
        let mut i: usize = 0;
        assert(all@.to_set() =~= runs@.take(0).to_set());
        while i < runs.len()
            invariant
                i <= runs.len(),
                is_ascending(all@),
                all@ == unresolved@,
                all@.to_set() == runs@.take(i as int).to_set(),
            decreases runs.len() - i,
        {
            insert_distinct(&mut all, runs[i]);
            insert_distinct(&mut unresolved, runs[i]);
            proof {
                assert(runs@.take(i + 1) == runs@.take(i as int).push(runs@[i as int]));
                lemma_push_contains(runs@.take(i as int), runs@[i as int]);
                assert forall|x: RunNumber|
                    runs@.take(i + 1).to_set().contains(x) <==> runs@.take(i as int).to_set().insert(
                        runs@[i as int],
                    ).contains(x) by {
                    assert(runs@.take(i + 1).to_set().contains(x) <==> runs@.take(i + 1).contains(x));
                    assert(runs@.take(i as int).to_set().contains(x) <==> runs@.take(i as int).contains(
                        x,
                    ));
                }
                assert(runs@.take(i + 1).to_set() =~= runs@.take(i as int).to_set().insert(
                    runs@[i as int],
                ));
                lemma_sorted_equal(all@, unresolved@);
            }
            i += 1;
        }
        assert(runs@.take(runs@.len() as int) == runs@);
        let (min_run, max_run) = if all.len() > 0 {
            (all[0], all[all.len() - 1])
        } else {
            (0, 0)
        };
        Resolution { min_run, max_run, all, unresolved, found: BTreeMap::new() }
    }

    /// The smallest and the largest run that was asked for, if any was.
    pub fn run_bounds(&self) -> (r: Option<(RunNumber, RunNumber)>)
        ensures
            match r {
                Some((low, high)) => self.asked().contains(low) && self.asked().contains(high)
                    && forall|run: RunNumber|
                    self.asked().contains(run) ==> low <= run <= high,
                None => self.asked() == Set::<RunNumber>::empty(),
            },
    {
        proof {
            use_type_invariant(self);
        }
        if self.all.len() > 0 {
            assert forall|run: RunNumber| self.asked().contains(run) implies self.min_run <= run
                <= self.max_run by {
                let k = choose|k: int| 0 <= k < self.all@.len() && self.all@[k] == run;
                assert(self.min_run <= self.all@[k] <= self.max_run);
            }
            Some((self.min_run, self.max_run))
        } else {
            assert(self.all@.to_set() =~= Set::<RunNumber>::empty());
            None
        }
    }

    /// Whether every run that was asked for has its assignment.
    pub fn is_done(&self) -> (r: bool)
        ensures
            r == (forall|run: RunNumber|
                self.asked().contains(run) ==> self.found().contains_key(run)),
    {
        proof {
            use_type_invariant(self);
            if self.unresolved@.len() > 0 {
                assert(self.unresolved@.contains(self.unresolved@[0]));
                assert(self.asked().contains(self.unresolved@[0]));
            } else {
                assert forall|run: RunNumber| self.asked().contains(run) implies self.found().contains_key(
                    run,
                ) by {
                    if !self.found@.contains_key(run) {
                        assert(self.unresolved@.contains(run));
                    }
                }
            }
        }
        self.unresolved.len() == 0
    }

    /// Looks at the assignments of the next variation of the chain.
    ///
    /// Fails where a run that is not settled lies in the range of a row
    /// whose creation time cannot be read.
    pub fn absorb(self, rows: &Vec<AssignmentRow>, timestamp: &Timestamp) -> (r: Result<
        Resolution,
        CCDBError,
    >)
        ensures
            r is Err <==> blocked(self.found(), self.asked(), rows@),
            r matches Err(e) ==> e is ParseTimestampError,
            r matches Ok(next) ==> next.asked() == self.asked() && next.found() == absorbed(
                self.found(),
                self.asked(),
                rows@,
                timestamp@,
            ),
    {
        proof {
            use_type_invariant(&self);
        }
        let ghost asked0 = self.asked();
        let ghost found0 = self.found();
        let Resolution { min_run, max_run, all, unresolved, found } = self;
        let ghost old_found = found@;
        assert(asked0 == all@.to_set());
        assert(found0 == old_found);
        let ghost t = timestamp@;
        let mut found = found;
        let mut remaining: Vec<RunNumber> = Vec::new();
        let mut i: usize = 0;
        while i < unresolved.len()
            invariant
                i <= unresolved.len(),
                is_ascending(all@),
                is_ascending(unresolved@),
                is_ascending(remaining@),
                t == timestamp@,
                asked0 == all@.to_set(),
                found0 == old_found,
                asked0 == self.asked(),
                found0 == self.found(),
                forall|run: RunNumber|
                    unresolved@.contains(run) <==> all@.contains(run) && !old_found.contains_key(run),
                forall|run: RunNumber| old_found.contains_key(run) ==> all@.contains(run),
                forall|k: int|
                    0 <= k < i ==> first_unreadable(rows@, #[trigger] unresolved@[k], rows@.len())
                        == rows@.len(),
                forall|run: RunNumber|
                    #[trigger] found@.contains_key(run) <==> old_found.contains_key(run) || (
                    unresolved@.take(i as int).contains(run) && best_row(rows@, run, t, rows@.len())
                        >= 0),
                forall|run: RunNumber|
                    #[trigger] found@.contains_key(run) ==> found@[run] == (if old_found.contains_key(
                        run,
                    ) {
                        old_found[run]
                    } else {
                        rows@[best_row(rows@, run, t, rows@.len())].meta
                    }),
                forall|run: RunNumber|
                    remaining@.contains(run) <==> unresolved@.take(i as int).contains(run)
                        && best_row(rows@, run, t, rows@.len()) < 0,
                forall|k: int|
                    0 <= k < remaining@.len() && i < unresolved@.len() ==> #[trigger] remaining@[k]
                        < unresolved@[i as int],
            decreases unresolved.len() - i,
        {
            let run = unresolved[i];
            let ghost before_found = found@;
            let ghost before_remaining = remaining@;
            proof {
                assert(unresolved@.contains(run));
                assert(unresolved@.take(i + 1) == unresolved@.take(i as int).push(run));
                lemma_push_contains(unresolved@.take(i as int), run);
                assert(!unresolved@.take(i as int).contains(run)) by {
                    let shorter = unresolved@.take(i as int);
                    if shorter.contains(run) {
                        let k = choose|k: int| 0 <= k < shorter.len() && shorter[k] == run;
                        assert(unresolved@[k] < unresolved@[i as int]);
                    }
                }
            }
            match pick(rows, run, timestamp) {
                Err(e) => {
                    assert(all@.contains(run));
                    assert(asked0.contains(run));
                    assert(!found0.contains_key(run));
                    assert(first_unreadable(rows@, run, rows@.len()) < rows@.len());
                    assert(blocked(found0, asked0, rows@));
                    return Err(CCDBError::ParseTimestampError(e));
                },
                Ok(Some(at)) => {
                    let row = &rows[at];
                    let meta = AssignmentMetaLite {
                        id: row.meta.id,
                        created: row.meta.created.clone(),
                        constant_set_id: row.meta.constant_set_id,
                    };
                    assert(meta == row.meta);
                    put(&mut found, run, meta);
                    assert(found@ == before_found.insert(run, meta));
                },
                Ok(None) => {
                    remaining.push(run);
                    proof {
                        lemma_push_contains(before_remaining, run);
                        assert forall|a: int, b: int| 0 <= a < b < remaining@.len() implies remaining@[a]
                            < remaining@[b] by {
                            if b < before_remaining.len() {
                                assert(remaining@[a] == before_remaining[a]);
                                assert(remaining@[b] == before_remaining[b]);
                            } else {
                                assert(remaining@[a] == before_remaining[a]);
                            }
                        }
                    }
                },
            }
            proof {
                assert forall|x: RunNumber|
                    #[trigger] found@.contains_key(x) <==> old_found.contains_key(x) || (
                    unresolved@.take(i + 1).contains(x) && best_row(rows@, x, t, rows@.len()) >= 0) by {
                    assert(before_found.contains_key(x) <==> old_found.contains_key(x) || (
                    unresolved@.take(i as int).contains(x) && best_row(rows@, x, t, rows@.len())
                        >= 0));
                    if found@ != before_found {
                        assert(found@ == before_found.insert(run, found@[run]));
                    }
                }
                assert forall|x: RunNumber|
                    remaining@.contains(x) <==> unresolved@.take(i + 1).contains(x) && best_row(
                        rows@,
                        x,
                        t,
                        rows@.len(),
                    ) < 0 by {
                    if remaining@ == before_remaining {
                        assert(remaining@.contains(x) <==> before_remaining.contains(x));
                    } else {
                        assert(remaining@ == before_remaining.push(run));
                    }
                    assert(before_remaining.contains(x) <==> unresolved@.take(i as int).contains(x)
                        && best_row(rows@, x, t, rows@.len()) < 0);
                }
                assert forall|k: int|
                    0 <= k < remaining@.len() && i + 1 < unresolved@.len() implies #[trigger] remaining@[k]
                    < unresolved@[i + 1] by {
                    assert(unresolved@[i as int] < unresolved@[i + 1]);
                    if k < before_remaining.len() {
                        assert(remaining@[k] == before_remaining[k]);
                    }
                }
            }
            i += 1;
        }
        proof {
            assert(unresolved@.take(unresolved@.len() as int) == unresolved@);
            assert forall|run: RunNumber| all@.to_set().contains(run) <==> all@.contains(run) by {}
            assert(found@ =~= absorbed(old_found, all@.to_set(), rows@, t));
            assert(!blocked(old_found, all@.to_set(), rows@)) by {
                if blocked(old_found, all@.to_set(), rows@) {
                    let run = choose|run: RunNumber|
                        all@.to_set().contains(run) && !old_found.contains_key(run)
                            && #[trigger] first_unreadable(rows@, run, rows@.len()) < rows@.len();
                    assert(unresolved@.contains(run));
                    let k = choose|k: int| 0 <= k < unresolved@.len() && unresolved@[k] == run;
                    assert(first_unreadable(rows@, unresolved@[k], rows@.len()) == rows@.len());
                }
            }
        }
        Ok(Resolution { min_run, max_run, all, unresolved: remaining, found })
    }

    /// The assignments found.
    pub fn finish(self) -> (r: BTreeMap<RunNumber, AssignmentMetaLite>)
        ensures
            r@ == self.found(),
    {
        self.found
    }
}

/// Two strictly ascending sequences with the same elements are equal.
pub proof fn lemma_sorted_equal(a: Seq<RunNumber>, b: Seq<RunNumber>)
    requires
        is_ascending(a),
        is_ascending(b),
        a.to_set() == b.to_set(),
    ensures
        a == b,
    decreases a.len(),
{
    if a.len() == 0 {
        if b.len() > 0 {
            assert(b.to_set().contains(b[0]));
            assert(a.to_set().contains(b[0]));
        }
        assert(a =~= b);
    } else {
        assert(a.to_set().contains(a.last()));
        assert(b.contains(a.last()));
        assert(b.len() > 0);
        assert(b.to_set().contains(b.last()));
        assert(a.contains(b.last()));
        let ia = choose|k: int| 0 <= k < a.len() && a[k] == b.last();
        let ib = choose|k: int| 0 <= k < b.len() && b[k] == a.last();
        assert(a.last() == b.last());
        let a0 = a.drop_last();
        let b0 = b.drop_last();
        assert(a0.to_set() =~= b0.to_set()) by {
            assert forall|x: RunNumber| a0.contains(x) <==> b0.contains(x) by {
                if a0.contains(x) {
                    let k = choose|k: int| 0 <= k < a0.len() && a0[k] == x;
                    assert(a[k] == x);
                    assert(a.to_set().contains(x));
                    assert(b.contains(x));
                    let j = choose|j: int| 0 <= j < b.len() && b[j] == x;
                    assert(x < a.last());
                    assert(j < b.len() - 1);
                    assert(b0[j] == x);
                }
                if b0.contains(x) {
                    let k = choose|k: int| 0 <= k < b0.len() && b0[k] == x;
                    assert(b[k] == x);
                    assert(b.to_set().contains(x));
                    assert(a.contains(x));
                    let j = choose|j: int| 0 <= j < a.len() && a[j] == x;
                    assert(x < b.last());
                    assert(j < a.len() - 1);
                    assert(a0[j] == x);
                }
            }
        }
        lemma_sorted_equal(a0, b0);
        assert(a =~= a0.push(a.last()));
        assert(b =~= b0.push(b.last()));
    }
}

} // verus!
