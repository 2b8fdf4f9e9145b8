//! Decoding the rows that a planned statement returns.

use vstd::prelude::*;
use crate::float::Float64;
use crate::rcdb::data::{Datum, Value};
use crate::rcdb::error::RCDBError;
use crate::rcdb::models::ValueType;
use crate::rcdb::query::{selected_views, Selected, SelectedColumn};
use crate::text::{chars_of, same_chars};
use crate::timestamp::{is_reading_of, parse_timestamp, read_timestamp, ParseTimestampError, Reading};
use crate::RunNumber;

verus! {

/// What the database holds in one column of one row.
#[derive(Debug, Clone)]
pub enum Stored {
    Null,
    Integer(i64),
    Real(Float64),
    Text(String),
}

/// A stored value as a mathematical value; a real number by its bit
/// pattern.
pub enum StoredDatum {
    Null,
    Integer(i64),
    Real(u64),
    Text(Seq<char>),
}

impl View for Stored {
    type V = StoredDatum;

    open spec fn view(&self) -> StoredDatum {
        match *self {
            Stored::Null => StoredDatum::Null,
            Stored::Integer(v) => StoredDatum::Integer(v),
            Stored::Real(v) => StoredDatum::Real(v@),
            Stored::Text(v) => StoredDatum::Text(v@),
        }
    }
}

/// What decoding one stored value comes to.
pub enum Decoding {
    /// Nothing is stored: the run has no value of the condition.
    Absent,
    /// The value.
    Present(Datum),
    /// The text of a `time` value, which is no instant.
    BadTime(Seq<char>),
    /// The stored value is of another storage class than the type asks
    /// for.
    Unexpected,
}

/// Decodes what is stored for a condition of type `value_type`.
///
/// Text is kept as it is for the types `string`, `json` and `blob`, and
/// read as an instant for `time`. An integer is itself for `int` and true
/// for `bool` unless it is zero. A real number is itself for `float`.
pub open spec fn decode_stored(value_type: ValueType, stored: StoredDatum) -> Decoding {
    match stored {
        StoredDatum::Null => Decoding::Absent,
        StoredDatum::Text(text) => if value_type.textual() {
            Decoding::Present(Datum::Text { value_type, text: Some(text) })
        } else if value_type == ValueType::Time {
            match read_timestamp(text) {
                Reading::Instant(c) => Decoding::Present(Datum::Time(c)),
                _ => Decoding::BadTime(text),
            }
        } else {
            Decoding::Unexpected
        },
        StoredDatum::Integer(v) => if value_type == ValueType::Int {
            Decoding::Present(Datum::Int(v))
        } else if value_type == ValueType::Bool {
            Decoding::Present(Datum::Bool(v != 0))
        } else {
            Decoding::Unexpected
        },
        StoredDatum::Real(bits) => if value_type == ValueType::Float {
            Decoding::Present(Datum::Float(bits))
        } else {
            Decoding::Unexpected
        },
    }
}

/// Whether `r` is what decoding `stored` for the condition `name` of run
/// `run` must return.
pub open spec fn is_decoded(
    r: Result<Option<Value>, RCDBError>,
    name: Seq<char>,
    value_type: ValueType,
    stored: StoredDatum,
    run: RunNumber,
) -> bool {
    match decode_stored(value_type, stored) {
        Decoding::Absent => r matches Ok(None),
        Decoding::Present(datum) => r matches Ok(Some(v)) && v@ == datum,
        Decoding::BadTime(text) => r matches Err(RCDBError::ParseTimestampError(e))
            && is_reading_of(Err(e), text),
        Decoding::Unexpected => r matches Err(
            RCDBError::UnexpectedStorage { condition_name, run_number },
        ) && condition_name@ == name && run_number == run,
    }
}

/// Decodes what is stored for the condition of `column` in run `run`.
pub fn decode_value(column: &SelectedColumn, stored: Stored, run: RunNumber) -> (r: Result<
    Option<Value>,
    RCDBError,
>)
    ensures
        is_decoded(r, column.name@, column.value_type, stored@, run),
{
    match stored {
        Stored::Null => Ok(None),
        Stored::Text(text) => {
            if column.value_type.is_textual() {
                Ok(Some(Value::text(column.value_type, Some(text))))
            } else {
                match column.value_type {
                    ValueType::Time => match parse_timestamp(text.as_str()) {
                        Ok(instant) => Ok(Some(Value::time(instant))),
                        Err(e) => Err(RCDBError::ParseTimestampError(e)),
                    },
                    _ => Err(
                        RCDBError::UnexpectedStorage {
                            condition_name: column.name.clone(),
                            run_number: run,
                        },
                    ),
                }
            }
        },
        Stored::Integer(v) => match column.value_type {
            ValueType::Int => Ok(Some(Value::integer(v))),
            ValueType::Bool => Ok(Some(Value::bool(v != 0))),
            _ => Err(
                RCDBError::UnexpectedStorage { condition_name: column.name.clone(), run_number: run },
            ),
        },
        Stored::Real(x) => match column.value_type {
            ValueType::Float => Ok(Some(Value::float(x))),
            _ => Err(
                RCDBError::UnexpectedStorage { condition_name: column.name.clone(), run_number: run },
            ),
        },
    }
}

/// The condition values of one run, by the name of the condition.
#[derive(Debug, Clone)]
pub struct ConditionValues {
    entries: Vec<(String, Value)>,
}

/// The value that the first `n` entries hold under `name`: that of the
/// last entry of that name.
pub open spec fn held(entries: Seq<(String, Value)>, name: Seq<char>, n: nat) -> Option<Datum>
    decreases n,
{
    if n == 0 || n > entries.len() {
        None
    } else if entries[n - 1].0@ == name {
        Some(entries[n - 1].1@)
    } else {
        held(entries, name, (n - 1) as nat)
    }
}

impl View for ConditionValues {
    type V = Map<Seq<char>, Datum>;

    closed spec fn view(&self) -> Map<Seq<char>, Datum> {
        Map::new(
            |name: Seq<char>| held(self.entries@, name, self.entries@.len()) is Some,
            |name: Seq<char>| held(self.entries@, name, self.entries@.len())->Some_0,
        )
    }
}

proof fn lemma_held_prefix(entries: Seq<(String, Value)>, longer: Seq<(String, Value)>, name: Seq<char>, n: nat)
    requires
        n <= entries.len() <= longer.len(),
        forall|i: int| 0 <= i < n ==> entries[i] == longer[i],
    ensures
        held(entries, name, n) == held(longer, name, n),
    decreases n,
{
    if n > 0 {
        lemma_held_prefix(entries, longer, name, (n - 1) as nat);
    }
}

proof fn lemma_held_after_update(
    before: Seq<(String, Value)>,
    after: Seq<(String, Value)>,
    at: int,
    name: Seq<char>,
    n: nat,
)
    requires
        0 <= at < before.len(),
        after.len() == before.len(),
        before[at].0@ == after[at].0@,
        forall|i: int| 0 <= i < before.len() && i != at ==> before[i] == after[i],
        forall|i: int| at < i < before.len() ==> before[i].0@ != before[at].0@,
        n <= before.len(),
    ensures
        held(after, name, n) == if name == before[at].0@ && at < n {
            Some(after[at].1@)
        } else {
            held(before, name, n)
        },
    decreases n,
{
    if n > 0 {
        lemma_held_after_update(before, after, at, name, (n - 1) as nat);
    }
}

proof fn lemma_held_none(entries: Seq<(String, Value)>, name: Seq<char>, n: nat)
    requires
        n <= entries.len(),
        forall|i: int| 0 <= i < n ==> entries[i].0@ != name,
    ensures
        held(entries, name, n) is None,
    decreases n,
{
    if n > 0 {
        lemma_held_none(entries, name, (n - 1) as nat);
    }
}

impl ConditionValues {
    /// No values.
    pub fn new() -> (v: ConditionValues)
        ensures
            v@ == Map::<Seq<char>, Datum>::empty(),
    {
        let v = ConditionValues { entries: Vec::new() };
        assert(v@ =~= Map::<Seq<char>, Datum>::empty());
        v
    }

    /// Where `name` stands among the entries, looking from the end.
    fn position(&self, name: &str) -> (r: Option<usize>)
        ensures
            match r {
                Some(at) => at < self.entries@.len() && self.entries@[at as int].0@ == name@
                    && forall|i: int| at < i < self.entries@.len() ==> self.entries@[i].0@ != name@,
                None => forall|i: int| 0 <= i < self.entries@.len() ==> self.entries@[i].0@ != name@,
            },
    {
        let wanted = chars_of(name);
        let mut i: usize = self.entries.len();
        while i > 0
            invariant
                0 <= i <= self.entries.len(),
                wanted@ == name@,
                forall|k: int| i <= k < self.entries@.len() ==> self.entries@[k].0@ != name@,
            decreases i,
        {
            let here = chars_of(self.entries[i - 1].0.as_str());
            if same_chars(&here, &wanted) {
                return Some(i - 1);
            }
            i -= 1;
        }
        None
    }

    /// Puts `value` under `name`, in place of what was there.
    pub fn insert(&mut self, name: String, value: Value)
        ensures
            final(self)@ == old(self)@.insert(name@, value@),
    {
        let ghost before = self.entries@;
        match self.position(name.as_str()) {
            Some(at) => {
                self.entries[at] = (name, value);
                proof {
                    let after = self.entries@;
                    assert forall|n: Seq<char>| #[trigger]
                        held(after, n, after.len()) == (if n == name@ {
                            Some(value@)
                        } else {
                            held(before, n, before.len())
                        }) by {
                        lemma_held_after_update(before, after, at as int, n, before.len());
                    }
                    assert(self@ =~= old(self)@.insert(name@, value@));
                }
            },
            None => {
                self.entries.push((name, value));
                proof {
                    let after = self.entries@;
                    assert forall|n: Seq<char>| #[trigger]
                        held(after, n, after.len()) == (if n == name@ {
                            Some(value@)
                        } else {
                            held(before, n, before.len())
                        }) by {
                        lemma_held_prefix(before, after, n, before.len());
                    }
                    assert(self@ =~= old(self)@.insert(name@, value@));
                }
            },
        }
    }

    /// The value under `name`.
    pub fn get(&self, name: &str) -> (r: Option<&Value>)
        ensures
            match r {
                Some(v) => self@.contains_key(name@) && v@ == self@[name@],
                None => !self@.contains_key(name@),
            },
    {
        match self.position(name) {
            Some(at) => {
                proof {
                    let e = self.entries@;
                    lemma_held_found(e, name@, at as int, e.len());
                }
                Some(&self.entries[at].1)
            },
            None => {
                proof {
                    lemma_held_none(self.entries@, name@, self.entries@.len());
                }
                None
            },
        }
    }

    pub fn contains_key(&self, name: &str) -> (r: bool)
        ensures
            r == self@.contains_key(name@),
    {
        self.get(name).is_some()
    }

    /// Whether no value is held.
    pub fn is_empty(&self) -> (r: bool)
        ensures
            r == (self@ == Map::<Seq<char>, Datum>::empty()),
    {
        proof {
            if self.entries@.len() > 0 {
                let last = self.entries@.len() - 1;
                assert(held(self.entries@, self.entries@[last].0@, self.entries@.len()) is Some);
                assert(self@.contains_key(self.entries@[last].0@));
            } else {
                assert(self@ =~= Map::<Seq<char>, Datum>::empty());
            }
        }
        self.entries.len() == 0
    }
}

proof fn lemma_held_found(entries: Seq<(String, Value)>, name: Seq<char>, at: int, n: nat)
    requires
        0 <= at < n <= entries.len(),
        entries[at].0@ == name,
        forall|i: int| at < i < entries.len() ==> entries[i].0@ != name,
    ensures
        held(entries, name, n) == Some(entries[at].1@),
    decreases n,
{
    if n - 1 > at {
        lemma_held_found(entries, name, at, (n - 1) as nat);
    }
}

/// The stored value of column `c`: a missing one counts as null.
pub open spec fn stored_at(stored: Seq<Stored>, c: int) -> StoredDatum {
    if 0 <= c < stored.len() {
        stored[c]@
    } else {
        StoredDatum::Null
    }
}

/// The place of the first of the first `n` columns whose stored value does
/// not decode, or `n`.
pub open spec fn first_undecoded(columns: Seq<Selected>, stored: Seq<Stored>, n: nat) -> nat
    decreases n,
{
    if n == 0 {
        0
    } else {
        let before = first_undecoded(columns, stored, (n - 1) as nat);
        if before < n - 1 {
            before
        } else {
            match decode_stored(columns[n - 1].value_type, stored_at(stored, n - 1)) {
                Decoding::Absent => n,
                Decoding::Present(_) => n,
                _ => (n - 1) as nat,
            }
        }
    }
}

/// The values that the first `n` columns add to `values`: each present one
/// under the name of its column.
pub open spec fn row_values(
    values: Map<Seq<char>, Datum>,
    columns: Seq<Selected>,
    stored: Seq<Stored>,
    n: nat,
) -> Map<Seq<char>, Datum>
    decreases n,
{
    if n == 0 {
        values
    } else {
        let before = row_values(values, columns, stored, (n - 1) as nat);
        match decode_stored(columns[n - 1].value_type, stored_at(stored, n - 1)) {
            Decoding::Present(datum) => before.insert(columns[n - 1].name, datum),
            _ => before,
        }
    }
}

proof fn lemma_first_undecoded_stays(columns: Seq<Selected>, stored: Seq<Stored>, found: nat, n: nat)
    requires
        first_undecoded(columns, stored, found) < found,
        found <= n,
    ensures
        first_undecoded(columns, stored, n) == first_undecoded(columns, stored, found),
    decreases n,
{
    if found < n {
        lemma_first_undecoded_stays(columns, stored, found, (n - 1) as nat);
    }
}

/// Decodes one row of a result into the values of its run.
///
/// `stored` holds what the database returned for the result columns after
/// the run number, in order. A value that is present is put under the name
/// of its condition; one that is null adds nothing. The first value that
/// does not decode is reported.
pub fn decode_row(
    values: &mut ConditionValues,
    columns: &Vec<SelectedColumn>,
    stored: Vec<Stored>,
    run: RunNumber,
) -> (r: Result<(), RCDBError>)
    ensures
        ({
            let cols = selected_views(columns@);
            let bad = first_undecoded(cols, stored@, cols.len());
            if bad < cols.len() {
                &&& r matches Err(e)
                &&& is_decoded(
                    Err(e),
                    cols[bad as int].name,
                    cols[bad as int].value_type,
                    stored_at(stored@, bad as int),
                    run,
                )
            } else {
                r is Ok && final(values)@ == row_values(old(values)@, cols, stored@, cols.len())
            }
        }),
{
    let ghost cols = selected_views(columns@);
    let mut cells = stored;
    let mut c: usize = 0;
    while c < columns.len()
        invariant
            c <= columns.len(),
            cols == selected_views(columns@),
            cols.len() == columns@.len(),
            cells@.len() == stored@.len(),
            forall|k: int| c <= k < cells@.len() ==> cells@[k] == stored@[k],
            first_undecoded(cols, stored@, c as nat) == c,
            values@ == row_values(old(values)@, cols, stored@, c as nat),
        decreases columns.len() - c,
    {
        let cell = if c < cells.len() {
            let mut taken = Stored::Null;
            std::mem::swap(&mut taken, &mut cells[c]);
            taken
        } else {
            Stored::Null
        };
        assert(cell@ == stored_at(stored@, c as int));
        assert(cols[c as int] == columns@[c as int]@);
        match decode_value(&columns[c], cell, run) {
            Ok(Some(value)) => {
                values.insert(columns[c].name.clone(), value);
            },
            Ok(None) => {},
            Err(e) => {
                proof {
                    lemma_first_undecoded_stays(cols, stored@, (c + 1) as nat, cols.len());
                }
                return Err(e);
            },
        }
        c += 1;
    }
    Ok(())
}

} // verus!
