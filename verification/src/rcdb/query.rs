//! Planning a query for condition values, and decoding what it returns.

use vstd::prelude::*;
use crate::numbers::{decimal, decimal_int, push_decimal, push_decimal_int};
use crate::rcdb::cond::{alias_views, compile, formulas_of, lemma_formulas_of, placeholders, push_placeholders, references, reports, sql_views, Alias, AliasInfo, Compiled, Expr, Fault, Formula, SqlDatum, SqlValue};
use crate::rcdb::context::{Context, RunSelection};
use crate::rcdb::error::RCDBError;
use crate::rcdb::models::{ConditionTypeMeta, ValueType};
use crate::text::{append_chars, append_str, chars_of, join, join_chars, last_index_of, same_chars, string_of, string_views, views};
use crate::Id;

verus! {

/// One row of the `condition_types` table as it is read: the type still by
/// its identifier, and the optional texts possibly missing.
#[derive(Debug, Clone)]
pub struct ConditionTypeRow {
    pub id: Id,
    pub name: String,
    pub value_type: String,
    pub created: Option<String>,
    pub description: Option<String>,
}

/// The condition types of a database, found by name.
#[derive(Debug, Clone)]
pub struct ConditionTypes {
    types: Vec<ConditionTypeMeta>,
}

/// The names of condition types, in order.
pub open spec fn type_names(types: Seq<ConditionTypeMeta>) -> Seq<Seq<char>> {
    Seq::new(types.len(), |i: int| types[i].name@)
}

/// The text of an optional field; a missing one is empty.
pub open spec fn text_or_empty(text: Option<String>) -> Seq<char> {
    match text {
        Some(t) => t@,
        None => Seq::<char>::empty(),
    }
}

/// The place of the first of the first `n` rows whose type identifier is
/// not known, or `n`.
pub open spec fn first_unknown_type(rows: Seq<ConditionTypeRow>, n: nat) -> nat
    decreases n,
{
    if n == 0 {
        0
    } else {
        let before = first_unknown_type(rows, (n - 1) as nat);
        if before < n - 1 {
            before
        } else if ValueType::identified(rows[n - 1].value_type@) is None {
            (n - 1) as nat
        } else {
            n
        }
    }
}

proof fn lemma_first_unknown_type_stays(rows: Seq<ConditionTypeRow>, found: nat, n: nat)
    requires
        first_unknown_type(rows, found) < found,
        found <= n,
    ensures
        first_unknown_type(rows, n) == first_unknown_type(rows, found),
    decreases n,
{
    if found < n {
        lemma_first_unknown_type_stays(rows, found, (n - 1) as nat);
    }
}

impl ConditionTypes {
    /// The types in the order in which they were read.
    pub closed spec fn entries(&self) -> Seq<ConditionTypeMeta> {
        self.types@
    }

    /// The place of the type called `name`: the last that bears the name,
    /// or -1.
    pub open spec fn index_of(&self, name: Seq<char>) -> int {
        last_index_of(type_names(self.entries()), name)
    }

    /// No condition types.
    pub fn new() -> (t: ConditionTypes)
        ensures
            t.entries().len() == 0,
    {
        ConditionTypes { types: Vec::new() }
    }

    /// The condition types that `rows` describe. A later row replaces an
    /// earlier one of the same name. The first row whose type identifier is
    /// not known is reported.
    pub fn load(rows: Vec<ConditionTypeRow>) -> (r: Result<ConditionTypes, RCDBError>)
        ensures
            match r {
                Ok(t) => {
                    &&& first_unknown_type(rows@, rows@.len()) == rows@.len()
                    &&& t.entries().len() == rows@.len()
                    &&& forall|i: int|
                        0 <= i < rows@.len() ==> {
                            let e = #[trigger] t.entries()[i];
                            &&& e.id == rows@[i].id
                            &&& e.name@ == rows@[i].name@
                            &&& Some(e.value_type) == ValueType::identified(rows@[i].value_type@)
                            &&& e.created@ == text_or_empty(rows@[i].created)
                            &&& e.description@ == text_or_empty(rows@[i].description)
                        }
                },
                Err(RCDBError::UnknownValueType(text)) => {
                    let bad = first_unknown_type(rows@, rows@.len());
                    bad < rows@.len() && text@ == rows@[bad as int].value_type@
                },
                Err(_) => false,
            },
    {
        let mut types: Vec<ConditionTypeMeta> = Vec::new();
        let mut i: usize = 0;
        while i < rows.len()
            invariant
                i <= rows.len(),
                first_unknown_type(rows@, i as nat) == i,
                types@.len() == i,
                forall|k: int|
                    0 <= k < i ==> {
                        let e = #[trigger] types@[k];
                        &&& e.id == rows@[k].id
                        &&& e.name@ == rows@[k].name@
                        &&& Some(e.value_type) == ValueType::identified(rows@[k].value_type@)
                        &&& e.created@ == text_or_empty(rows@[k].created)
                        &&& e.description@ == text_or_empty(rows@[k].description)
                    },
            decreases rows.len() - i,
        {
            let row = &rows[i];
            let value_type = match ValueType::from_identifier(row.value_type.as_str()) {
                Some(t) => t,
                None => {
                    proof {
                        lemma_first_unknown_type_stays(rows@, (i + 1) as nat, rows@.len());
                    }
                    return Err(RCDBError::UnknownValueType(row.value_type.clone()));
                },
            };
            let created = match &row.created {
                Some(t) => t.clone(),
                None => String::new(),
            };
            let description = match &row.description {
                Some(t) => t.clone(),
                None => String::new(),
            };
            types.push(
                ConditionTypeMeta {
                    id: row.id,
                    name: row.name.clone(),
                    value_type,
                    created,
                    description,
                },
            );
            i += 1;
        }
        Ok(ConditionTypes { types })
    }

    /// The condition type called `name`.
    pub fn get(&self, name: &str) -> (r: Option<&ConditionTypeMeta>)
        ensures
            match r {
                Some(meta) => self.index_of(name@) >= 0 && *meta == self.entries()[self.index_of(
                    name@,
                )],
                None => self.index_of(name@) == -1,
            },
    {
        let wanted = chars_of(name);
        let mut i: usize = self.types.len();
        let ghost all = type_names(self.types@);
        assert(all.take(all.len() as int) == all);
        while i > 0
            invariant
                0 <= i <= self.types.len(),
                all == type_names(self.types@),
                wanted@ == name@,
                last_index_of(all, name@) == last_index_of(all.take(i as int), name@),
            decreases i,
        {
            let here = chars_of(self.types[i - 1].name.as_str());
            proof {
                assert(all.take(i as int).last() == all[i - 1]);
                assert(all.take(i as int).drop_last() == all.take(i - 1));
            }
            if same_chars(&here, &wanted) {
                return Some(&self.types[i - 1]);
            }
            i -= 1;
        }
        None
    }

    /// How many rows were read.
    pub fn len(&self) -> (n: usize)
        ensures
            n == self.entries().len(),
    {
        self.types.len()
    }
}

/// One condition that a query joins.
#[derive(Debug, Clone)]
pub struct ConditionQueryEntry {
    pub name: String,
    pub meta: ConditionTypeMeta,
    pub alias: String,
    pub select: bool,
}

/// A joined condition as a mathematical value. Its alias is `cond_`
/// followed by its place among the joined conditions.
pub struct Joined {
    pub name: Seq<char>,
    pub id: Id,
    pub value_type: ValueType,
    pub select: bool,
}

/// The alias of the condition joined at place `at`.
pub open spec fn alias_text(at: nat) -> Seq<char> {
    "cond_"@ + decimal(at)
}

/// What joining conditions comes to: the joined conditions, or the name
/// that no condition type bears.
pub enum Joining {
    Entries(Seq<Joined>),
    Unknown(Seq<char>),
}

/// The names of the joined conditions, in order.
pub open spec fn joined_names(entries: Seq<Joined>) -> Seq<Seq<char>> {
    Seq::new(entries.len(), |i: int| entries[i].name)
}

/// Joins the condition `name` unless it is joined already, and marks it as
/// selected where `select` is set.
pub open spec fn join_one(entries: Seq<Joined>, name: Seq<char>, select: bool, types: ConditionTypes) -> Joining {
    let at = last_index_of(joined_names(entries), name);
    if at >= 0 {
        if select {
            Joining::Entries(
                entries.update(
                    at,
                    Joined {
                        name: entries[at].name,
                        id: entries[at].id,
                        value_type: entries[at].value_type,
                        select: true,
                    },
                ),
            )
        } else {
            Joining::Entries(entries)
        }
    } else {
        let t = types.index_of(name);
        if t >= 0 {
            Joining::Entries(
                entries.push(
                    Joined {
                        name,
                        id: types.entries()[t].id,
                        value_type: types.entries()[t].value_type,
                        select,
                    },
                ),
            )
        } else {
            Joining::Unknown(name)
        }
    }
}

/// Joins the first `n` of `names` in order; the first unknown one ends it.
pub open spec fn join_all(
    entries: Seq<Joined>,
    names: Seq<Seq<char>>,
    select: bool,
    types: ConditionTypes,
    n: nat,
) -> Joining
    decreases n,
{
    if n == 0 || n > names.len() {
        Joining::Entries(entries)
    } else {
        match join_all(entries, names, select, types, (n - 1) as nat) {
            Joining::Unknown(name) => Joining::Unknown(name),
            Joining::Entries(so_far) => join_one(so_far, names[n - 1], select, types),
        }
    }
}

/// Once a name is unknown, joining fails with it however many more names
/// are looked at.
pub proof fn lemma_join_all_unknown(
    entries: Seq<Joined>,
    names: Seq<Seq<char>>,
    select: bool,
    types: ConditionTypes,
    k: nat,
    n: nat,
)
    requires
        join_all(entries, names, select, types, k) is Unknown,
        k <= n <= names.len(),
    ensures
        join_all(entries, names, select, types, n) == join_all(entries, names, select, types, k),
    decreases n,
{
    if k < n {
        lemma_join_all_unknown(entries, names, select, types, k, (n - 1) as nat);
    }
}

/// The joined conditions that the entries stand for.
pub open spec fn joined_of(entries: Seq<ConditionQueryEntry>) -> Seq<Joined> {
    Seq::new(
        entries.len(),
        |i: int|
            Joined {
                name: entries[i].name@,
                id: entries[i].meta.id,
                value_type: entries[i].meta.value_type,
                select: entries[i].select,
            },
    )
}

/// Whether every entry has the alias of its place.
pub open spec fn aliased(entries: Seq<ConditionQueryEntry>) -> bool {
    forall|i: int| 0 <= i < entries.len() ==> (#[trigger] entries[i]).alias@ == alias_text(i as nat)
}

fn find_entry(entries: &Vec<ConditionQueryEntry>, name: &str) -> (r: Option<usize>)
    ensures
        match r {
            Some(at) => at < entries@.len() && at == last_index_of(
                Seq::new(entries@.len(), |i: int| entries@[i].name@),
                name@,
            ),
            None => last_index_of(Seq::new(entries@.len(), |i: int| entries@[i].name@), name@) == -1,
        },
{
    let wanted = chars_of(name);
    let mut i: usize = entries.len();
    let ghost all = Seq::new(entries@.len(), |i: int| entries@[i].name@);
    assert(all.take(all.len() as int) == all);
    while i > 0
        invariant
            0 <= i <= entries.len(),
            all == Seq::new(entries@.len(), |i: int| entries@[i].name@),
            wanted@ == name@,
            last_index_of(all, name@) == last_index_of(all.take(i as int), name@),
        decreases i,
    {
        let here = chars_of(entries[i - 1].name.as_str());
        proof {
            assert(all.take(i as int).last() == all[i - 1]);
            assert(all.take(i as int).drop_last() == all.take(i - 1));
        }
        if same_chars(&here, &wanted) {
            return Some(i - 1);
        }
        i -= 1;
    }
    None
}

/// Joins the condition `name` unless it is joined already, and marks it as
/// selected where `select` is set.
fn ensure_query_entry(
    types: &ConditionTypes,
    name: &str,
    select: bool,
    entries: &mut Vec<ConditionQueryEntry>,
) -> (r: Result<(), RCDBError>)
    requires
        aliased(old(entries)@),
    ensures
        match join_one(joined_of(old(entries)@), name@, select, *types) {
            Joining::Entries(joined) => r is Ok && joined_of(final(entries)@) == joined && aliased(
                final(entries)@,
            ),
            Joining::Unknown(unknown) => r matches Err(RCDBError::ConditionTypeNotFound(text))
                && text@ == unknown && final(entries)@ == old(entries)@,
        },
{
    let ghost names = Seq::new(entries@.len(), |i: int| entries@[i].name@);
    assert(names == joined_names(joined_of(entries@)));
    match find_entry(entries, name) {
        Some(at) => {
            if select {
                let ghost before = entries@;
                entries[at].select = true;
                assert(entries@.len() == before.len());
                assert(forall|i: int| 0 <= i < before.len() && i != at ==> entries@[i] == before[i]);
                assert(joined_of(entries@) == joined_of(before).update(
                    at as int,
                    Joined {
                        name: before[at as int].name@,
                        id: before[at as int].meta.id,
                        value_type: before[at as int].meta.value_type,
                        select: true,
                    },
                ));
            }
            Ok(())
        },
        None => {
            let meta = match types.get(name) {
                Some(found) => ConditionTypeMeta {
                    id: found.id,
                    name: found.name.clone(),
                    value_type: found.value_type,
                    created: found.created.clone(),
                    description: found.description.clone(),
                },
                None => {
                    return Err(RCDBError::ConditionTypeNotFound(name.to_owned()));
                },
            };
            let ghost before = entries@;
            let mut alias = chars_of("cond_");
            push_decimal(&mut alias, entries.len() as u64);
            entries.push(
                ConditionQueryEntry { name: name.to_owned(), meta, alias: string_of(&alias), select },
            );
            assert(joined_of(entries@) == joined_of(before).push(
                Joined { name: name@, id: meta.id, value_type: meta.value_type, select },
            ));
            Ok(())
        },
    }
}

/// The names that the first `n` filters compare, in order.
pub open spec fn filter_references(filters: Seq<Formula>, n: nat) -> Seq<Seq<char>>
    decreases n,
{
    if n == 0 || n > filters.len() {
        Seq::<Seq<char>>::empty()
    } else {
        filter_references(filters, (n - 1) as nat) + references(filters[n - 1])
    }
}

fn collect_references(filters: &Vec<Expr>) -> (refs: Vec<String>)
    ensures
        string_views(refs@) == filter_references(
            formulas_of(filters@, filters@.len()),
            filters@.len(),
        ),
{
    let mut refs: Vec<String> = Vec::new();
    let ghost fs = formulas_of(filters@, filters@.len());
    proof {
        lemma_formulas_of(filters@, filters@.len());
    }
    let mut i: usize = 0;
    assert(string_views(refs@) == Seq::<Seq<char>>::empty());
    while i < filters.len()
        invariant
            i <= filters.len(),
            fs == formulas_of(filters@, filters@.len()),
            fs.len() == filters@.len(),
            forall|k: int| 0 <= k < fs.len() ==> #[trigger] fs[k] == filters@[k]@,
            string_views(refs@) == filter_references(fs, i as nat),
        decreases filters.len() - i,
    {
        filters[i].referenced_conditions(&mut refs);
        i += 1;
    }
    refs
}

fn join_names(
    types: &ConditionTypes,
    names: &Vec<String>,
    select: bool,
    entries: &mut Vec<ConditionQueryEntry>,
) -> (r: Result<(), RCDBError>)
    requires
        aliased(old(entries)@),
    ensures
        match join_all(joined_of(old(entries)@), string_views(names@), select, *types, names@.len()) {
            Joining::Entries(joined) => r is Ok && joined_of(final(entries)@) == joined && aliased(
                final(entries)@,
            ),
            Joining::Unknown(unknown) => r matches Err(RCDBError::ConditionTypeNotFound(text))
                && text@ == unknown,
        },
{
    let ghost start = joined_of(entries@);
    let ghost all = string_views(names@);
    let mut i: usize = 0;
    while i < names.len()
        invariant
            i <= names.len(),
            all == string_views(names@),
            all.len() == names@.len(),
            start == joined_of(old(entries)@),
            aliased(entries@),
            join_all(start, all, select, *types, i as nat) == Joining::Entries(joined_of(entries@)),
        decreases names.len() - i,
    {
        assert(all[i as int] == names@[i as int]@);
        let ghost before = joined_of(entries@);
        assert(join_all(start, all, select, *types, (i + 1) as nat) == join_one(
            before,
            all[i as int],
            select,
            *types,
        ));
        match ensure_query_entry(types, names[i].as_str(), select, entries) {
            Ok(()) => {},
            Err(e) => {
                proof {
                    lemma_join_all_unknown(start, all, select, *types, (i + 1) as nat, all.len());
                }
                return Err(e);
            },
        }
        i += 1;
    }
    Ok(())
}

/// The joined conditions as the table that expressions compile against.
pub open spec fn table_of(joined: Seq<Joined>) -> Seq<Alias> {
    Seq::new(
        joined.len(),
        |i: int|
            Alias { name: joined[i].name, alias: alias_text(i as nat), value_type: joined[i].value_type },
    )
}

fn alias_table(entries: &Vec<ConditionQueryEntry>) -> (table: Vec<AliasInfo>)
    requires
        aliased(entries@),
    ensures
        alias_views(table@) == table_of(joined_of(entries@)),
{
    let mut table: Vec<AliasInfo> = Vec::new();
    let mut i: usize = 0;
    while i < entries.len()
        invariant
            i <= entries.len(),
            aliased(entries@),
            table@.len() == i,
            forall|k: int|
                0 <= k < i ==> (#[trigger] table@[k])@ == (Alias {
                    name: entries@[k].name@,
                    alias: alias_text(k as nat),
                    value_type: entries@[k].meta.value_type,
                }),
        decreases entries.len() - i,
    {
        let entry = &entries[i];
        table.push(
            AliasInfo {
                name: entry.name.clone(),
                alias: entry.alias.clone(),
                value_type: entry.meta.value_type,
            },
        );
        i += 1;
    }
    assert(alias_views(table@) == table_of(joined_of(entries@)));
    table
}

/// One column of the result: the condition and the type of its values.
#[derive(Debug, Clone)]
pub struct SelectedColumn {
    pub name: String,
    pub value_type: ValueType,
}

/// A result column as a mathematical value.
pub struct Selected {
    pub name: Seq<char>,
    pub value_type: ValueType,
}

impl View for SelectedColumn {
    type V = Selected;

    open spec fn view(&self) -> Selected {
        Selected { name: self.name@, value_type: self.value_type }
    }
}

/// The result columns as mathematical values, in order.
pub open spec fn selected_views(columns: Seq<SelectedColumn>) -> Seq<Selected> {
    Seq::new(columns.len(), |i: int| columns[i]@)
}

/// `, alias.column` for each selected one of the first `n` joined
/// conditions.
pub open spec fn select_list(joined: Seq<Joined>, n: nat) -> Seq<char>
    decreases n,
{
    if n == 0 || n > joined.len() {
        Seq::<char>::empty()
    } else if joined[n - 1].select {
        select_list(joined, (n - 1) as nat) + ", "@ + alias_text((n - 1) as nat) + "."@ + joined[n
            - 1].value_type.column()
    } else {
        select_list(joined, (n - 1) as nat)
    }
}

/// The selected ones of the first `n` joined conditions, in order.
pub open spec fn selected_columns(joined: Seq<Joined>, n: nat) -> Seq<Selected>
    decreases n,
{
    if n == 0 || n > joined.len() {
        Seq::<Selected>::empty()
    } else if joined[n - 1].select {
        selected_columns(joined, (n - 1) as nat).push(
            Selected { name: joined[n - 1].name, value_type: joined[n - 1].value_type },
        )
    } else {
        selected_columns(joined, (n - 1) as nat)
    }
}

/// The join of the condition at place `at`.
pub open spec fn join_clause(at: nat, id: Id) -> Seq<char> {
    "LEFT JOIN conditions AS "@ + alias_text(at) + " ON "@ + alias_text(at)
        + ".run_number = runs.number AND "@ + alias_text(at) + ".condition_type_id = "@
        + decimal_int(id as int) + " "@
}

/// The joins of the first `n` joined conditions.
pub open spec fn join_clauses(joined: Seq<Joined>, n: nat) -> Seq<char>
    decreases n,
{
    if n == 0 || n > joined.len() {
        Seq::<char>::empty()
    } else {
        join_clauses(joined, (n - 1) as nat) + join_clause((n - 1) as nat, joined[n - 1].id)
    }
}

fn push_select_list(out: &mut Vec<char>, entries: &Vec<ConditionQueryEntry>)
    requires
        aliased(entries@),
    ensures
        final(out)@ == old(out)@ + select_list(joined_of(entries@), entries@.len()),
{
    let ghost joined = joined_of(entries@);
    let mut i: usize = 0;
    assert(out@ == old(out)@ + select_list(joined, 0));
    while i < entries.len()
        invariant
            i <= entries.len(),
            aliased(entries@),
            joined == joined_of(entries@),
            out@ == old(out)@ + select_list(joined, i as nat),
        decreases entries.len() - i,
    {
        let entry = &entries[i];
        let ghost so_far = select_list(joined, i as nat);
        if entry.select {
            append_str(out, ", ");
            append_str(out, entry.alias.as_str());
            append_str(out, ".");
            append_str(out, entry.meta.value_type.column_name());
            assert(out@ == old(out)@ + (so_far + ", "@ + alias_text(i as nat) + "."@
                + entry.meta.value_type.column()));
        }
        i += 1;
    }
}

fn selected_of(entries: &Vec<ConditionQueryEntry>) -> (columns: Vec<SelectedColumn>)
    ensures
        selected_views(columns@) == selected_columns(joined_of(entries@), entries@.len()),
{
    let ghost joined = joined_of(entries@);
    let mut columns: Vec<SelectedColumn> = Vec::new();
    let mut i: usize = 0;
    assert(selected_views(columns@) == selected_columns(joined, 0));
    while i < entries.len()
        invariant
            i <= entries.len(),
            joined == joined_of(entries@),
            selected_views(columns@) == selected_columns(joined, i as nat),
        decreases entries.len() - i,
    {
        let entry = &entries[i];
        let ghost so_far = selected_views(columns@);
        if entry.select {
            columns.push(
                SelectedColumn { name: entry.name.clone(), value_type: entry.meta.value_type },
            );
            assert(selected_views(columns@) == so_far.push(
                Selected { name: entry.name@, value_type: entry.meta.value_type },
            ));
        }
        i += 1;
    }
    columns
}

fn push_joins(out: &mut Vec<char>, entries: &Vec<ConditionQueryEntry>)
    requires
        aliased(entries@),
    ensures
        final(out)@ == old(out)@ + join_clauses(joined_of(entries@), entries@.len()),
{
    let ghost joined = joined_of(entries@);
    let mut i: usize = 0;
    assert(out@ == old(out)@ + join_clauses(joined, 0));
    while i < entries.len()
        invariant
            i <= entries.len(),
            aliased(entries@),
            joined == joined_of(entries@),
            out@ == old(out)@ + join_clauses(joined, i as nat),
        decreases entries.len() - i,
    {
        let entry = &entries[i];
        let ghost so_far = join_clauses(joined, i as nat);
        let alias = entry.alias.as_str();
        append_str(out, "LEFT JOIN conditions AS ");
        append_str(out, alias);
        append_str(out, " ON ");
        append_str(out, alias);
        append_str(out, ".run_number = runs.number AND ");
        append_str(out, alias);
        append_str(out, ".condition_type_id = ");
        push_decimal_int(out, entry.meta.id);
        append_str(out, " ");
        assert(out@ == old(out)@ + (so_far + join_clause(i as nat, entry.meta.id)));
        i += 1;
    }
}

/// The clause that restricts the runs: none for every run.
pub open spec fn selection_clauses(selection: RunSelection) -> Seq<Seq<char>> {
    match selection {
        RunSelection::All => Seq::<Seq<char>>::empty(),
        RunSelection::Range { .. } => seq!["runs.number BETWEEN ? AND ?"@],
        RunSelection::Runs(runs) => seq!["runs.number IN ("@ + placeholders(runs@.len()) + ")"@],
    }
}

/// Each run as a bound integer.
pub open spec fn run_params(runs: Seq<i64>) -> Seq<SqlDatum> {
    Seq::new(runs.len(), |i: int| SqlDatum::Integer(runs[i]))
}

/// The values that the selection clause binds.
pub open spec fn selection_params(selection: RunSelection) -> Seq<SqlDatum> {
    match selection {
        RunSelection::All => Seq::<SqlDatum>::empty(),
        RunSelection::Range { start, end } => seq![SqlDatum::Integer(start), SqlDatum::Integer(end)],
        RunSelection::Runs(runs) => run_params(runs@),
    }
}

fn selection_where(selection: &RunSelection) -> (r: (Vec<Vec<char>>, Vec<SqlValue>))
    ensures
        views(r.0@) == selection_clauses(*selection),
        sql_views(r.1@) == selection_params(*selection),
{
    let mut clauses: Vec<Vec<char>> = Vec::new();
    let mut params: Vec<SqlValue> = Vec::new();
    match selection {
        RunSelection::All => {
            assert(views(clauses@) == Seq::<Seq<char>>::empty());
            assert(sql_views(params@) == Seq::<SqlDatum>::empty());
        },
        RunSelection::Range { start, end } => {
            clauses.push(chars_of("runs.number BETWEEN ? AND ?"));
            params.push(SqlValue::Integer(*start));
            params.push(SqlValue::Integer(*end));
            assert(views(clauses@) == seq!["runs.number BETWEEN ? AND ?"@]);
            assert(sql_views(params@) == seq![SqlDatum::Integer(*start), SqlDatum::Integer(*end)]);
        },
        RunSelection::Runs(runs) => {
            let mut i: usize = 0;
            assert(sql_views(params@) == run_params(runs@).take(0));
            while i < runs.len()
                invariant
                    i <= runs.len(),
                    sql_views(params@) == run_params(runs@).take(i as int),
                decreases runs.len() - i,
            {
                let ghost so_far = sql_views(params@);
                params.push(SqlValue::Integer(runs[i]));
                assert(sql_views(params@) == so_far.push(SqlDatum::Integer(runs@[i as int])));
                assert(sql_views(params@) == run_params(runs@).take(i + 1));
                i += 1;
            }
            assert(run_params(runs@).take(runs@.len() as int) == run_params(runs@));
            let mut clause = chars_of("runs.number IN (");
            push_placeholders(&mut clause, runs.len());
            append_str(&mut clause, ")");
            clauses.push(clause);
            assert(views(clauses@) == seq!["runs.number IN ("@ + placeholders(runs@.len()) + ")"@]);
        },
    }
    (clauses, params)
}

/// What compiling the filters of a query comes to.
pub enum Filtered {
    Clauses { texts: Seq<Seq<char>>, params: Seq<SqlDatum> },
    Fault(Fault),
}

/// Compiles the first `n` filters in order. A filter that compiles to
/// `1 = 1` adds no clause. The first fault ends it.
pub open spec fn filter_clauses(filters: Seq<Formula>, table: Seq<Alias>, n: nat) -> Filtered
    decreases n,
{
    if n == 0 || n > filters.len() {
        Filtered::Clauses { texts: Seq::<Seq<char>>::empty(), params: Seq::<SqlDatum>::empty() }
    } else {
        match filter_clauses(filters, table, (n - 1) as nat) {
            Filtered::Fault(fault) => Filtered::Fault(fault),
            Filtered::Clauses { texts, params } => match compile(filters[n - 1], table) {
                Compiled::Fault(fault) => Filtered::Fault(fault),
                Compiled::Sql { text, params: more } => Filtered::Clauses {
                    texts: if text == "1 = 1"@ {
                        texts
                    } else {
                        texts.push(text)
                    },
                    params: params + more,
                },
            },
        }
    }
}

proof fn lemma_filter_clauses_fault(filters: Seq<Formula>, table: Seq<Alias>, k: nat, n: nat)
    requires
        filter_clauses(filters, table, k) is Fault,
        k <= n <= filters.len(),
    ensures
        filter_clauses(filters, table, n) == filter_clauses(filters, table, k),
    decreases n,
{
    if k < n {
        lemma_filter_clauses_fault(filters, table, k, (n - 1) as nat);
    }
}

fn filter_where(
    filters: &Vec<Expr>,
    table: &Vec<AliasInfo>,
    clauses: &mut Vec<Vec<char>>,
    params: &mut Vec<SqlValue>,
) -> (r: Result<(), RCDBError>)
    ensures
        match filter_clauses(
            formulas_of(filters@, filters@.len()),
            alias_views(table@),
            filters@.len(),
        ) {
            Filtered::Clauses { texts, params: bound } => r is Ok && views(final(clauses)@) == views(
                old(clauses)@,
            ) + texts && sql_views(final(params)@) == sql_views(old(params)@) + bound,
            Filtered::Fault(fault) => r matches Err(e) && reports(e, fault),
        },
{
    let ghost fs = formulas_of(filters@, filters@.len());
    let ghost tbl = alias_views(table@);
    let ghost mut texts = Seq::<Seq<char>>::empty();
    let ghost mut bound = Seq::<SqlDatum>::empty();
    proof {
        lemma_formulas_of(filters@, filters@.len());
        assert(views(clauses@) + texts == views(clauses@));
        assert(sql_views(params@) + bound == sql_views(params@));
    }
    let neutral = chars_of("1 = 1");
    let mut i: usize = 0;
    while i < filters.len()
        invariant
            i <= filters.len(),
            fs == formulas_of(filters@, filters@.len()),
            fs.len() == filters@.len(),
            forall|k: int| 0 <= k < fs.len() ==> #[trigger] fs[k] == filters@[k]@,
            tbl == alias_views(table@),
            neutral@ == "1 = 1"@,
            filter_clauses(fs, tbl, i as nat) == (Filtered::Clauses { texts, params: bound }),
            views(clauses@) == views(old(clauses)@) + texts,
            sql_views(params@) == sql_views(old(params)@) + bound,
        decreases filters.len() - i,
    {
        let ghost before_clauses = views(clauses@);
        assert(fs[i as int] == filters@[i as int]@);
        match filters[i].to_sql(table, params) {
            Ok(text) => {
                let ghost more = compile(fs[i as int], tbl)->Sql_params;
                let clause = chars_of(text.as_str());
                if !same_chars(&clause, &neutral) {
                    clauses.push(clause);
                    proof {
                        assert(views(clauses@) == before_clauses.push(text@));
                        assert(views(clauses@) == views(old(clauses)@) + texts.push(text@));
                        texts = texts.push(text@);
                    }
                }
                proof {
                    assert(sql_views(params@) == sql_views(old(params)@) + (bound + more));
                    bound = bound + more;
                }
            },
            Err(e) => {
                proof {
                    assert(filter_clauses(fs, tbl, (i + 1) as nat) is Fault);
                    lemma_filter_clauses_fault(fs, tbl, (i + 1) as nat, fs.len());
                }
                return Err(e);
            },
        }
        i += 1;
    }
    Ok(())
}

/// The `WHERE` part for the given clauses: nothing for none.
pub open spec fn where_sql(clauses: Seq<Seq<char>>) -> Seq<char> {
    if clauses.len() == 0 {
        Seq::<char>::empty()
    } else {
        " WHERE "@ + join(clauses, " AND "@)
    }
}

fn push_where(out: &mut Vec<char>, clauses: &Vec<Vec<char>>)
    ensures
        final(out)@ == old(out)@ + where_sql(views(clauses@)),
{
    if clauses.len() > 0 {
        let word = chars_of(" AND ");
        let joined = join_chars(clauses, &word);
        append_str(out, " WHERE ");
        append_chars(out, &joined);
        assert(out@ == old(out)@ + (" WHERE "@ + join(views(clauses@), " AND "@)));
    } else {
        assert(out@ == old(out)@ + Seq::<char>::empty());
    }
}

/// A statement ready to be run: its text, the values of its question marks
/// in order, and the conditions of its result columns after the run number.
#[derive(Debug, Clone)]
pub struct QueryPlan {
    pub sql: String,
    pub params: Vec<SqlValue>,
    pub columns: Vec<SelectedColumn>,
}

/// What a request comes to.
#[derive(Debug, Clone)]
pub enum Plan {
    /// The result is empty; the database need not be asked.
    Empty,
    /// The result is what the statement returns.
    Query(QueryPlan),
}

/// What planning a request must come to.
pub enum Planned {
    /// No condition was asked for.
    EmptyList,
    /// A condition is unknown, or declared under another type.
    Fault(Fault),
    /// The result is empty.
    Empty,
    /// The statement.
    Query { sql: Seq<char>, params: Seq<SqlDatum>, columns: Seq<Selected> },
}

/// Whether `r` is the plan, or reports the failure, that `planned`
/// describes.
pub open spec fn is_plan_of(r: Result<Plan, RCDBError>, planned: Planned) -> bool {
    match planned {
        Planned::EmptyList => r matches Err(RCDBError::EmptyConditionList),
        Planned::Fault(fault) => r matches Err(e) && reports(e, fault),
        Planned::Empty => r matches Ok(Plan::Empty),
        Planned::Query { sql, params, columns } => r matches Ok(Plan::Query(q)) && q.sql@ == sql
            && sql_views(q.params@) == params && selected_views(q.columns@) == columns,
    }
}

/// Whether the selection lists runs, and lists none.
pub open spec fn selects_nothing(selection: RunSelection) -> bool {
    selection matches RunSelection::Runs(runs) && runs@.len() == 0
}

/// The statement for the joined conditions `joined`, beginning with
/// `head`: the joins, the `WHERE` part from the run selection and the
/// filters, and the ordering by run.
pub open spec fn statement(
    head: Seq<char>,
    joined: Seq<Joined>,
    selection: RunSelection,
    filters: Seq<Formula>,
) -> Planned {
    match filter_clauses(filters, table_of(joined), filters.len()) {
        Filtered::Fault(fault) => Planned::Fault(fault),
        Filtered::Clauses { texts, params } => Planned::Query {
            sql: head + join_clauses(joined, joined.len()) + where_sql(
                selection_clauses(selection) + texts,
            ) + " ORDER BY runs.number"@,
            params: selection_params(selection) + params,
            columns: selected_columns(joined, joined.len()),
        },
    }
}

/// The plan for fetching the conditions `names` of the selected runs that
/// pass `filters`.
///
/// The named conditions are joined first and selected, then those that only
/// the filters compare. Asking for no condition is an error; a selection
/// that lists no run gives the empty result.
pub open spec fn fetch_plan(
    names: Seq<Seq<char>>,
    selection: RunSelection,
    filters: Seq<Formula>,
    types: ConditionTypes,
) -> Planned {
    if names.len() == 0 {
        Planned::EmptyList
    } else if selects_nothing(selection) {
        Planned::Empty
    } else {
        match join_all(Seq::<Joined>::empty(), names, true, types, names.len()) {
            Joining::Unknown(name) => Planned::Fault(Fault::NotFound(name)),
            Joining::Entries(requested) => {
                let refs = filter_references(filters, filters.len());
                match join_all(requested, refs, false, types, refs.len()) {
                    Joining::Unknown(name) => Planned::Fault(Fault::NotFound(name)),
                    Joining::Entries(joined) => statement(
                        "SELECT runs.number"@ + select_list(joined, joined.len()) + " FROM runs "@,
                        joined,
                        selection,
                        filters,
                    ),
                }
            },
        }
    }
}

/// The plan for listing the selected runs that pass `filters`.
pub open spec fn fetch_runs_plan(
    selection: RunSelection,
    filters: Seq<Formula>,
    types: ConditionTypes,
) -> Planned {
    if selects_nothing(selection) {
        Planned::Empty
    } else {
        let refs = filter_references(filters, filters.len());
        match join_all(Seq::<Joined>::empty(), refs, false, types, refs.len()) {
            Joining::Unknown(name) => Planned::Fault(Fault::NotFound(name)),
            Joining::Entries(joined) => statement(
                "SELECT DISTINCT runs.number FROM runs "@,
                joined,
                selection,
                filters,
            ),
        }
    }
}

/// A selection that lists no run plans no statement, whatever the
/// conditions, the filters and the condition types are: the result is
/// empty, and the database is not asked.
pub proof fn lemma_no_runs_no_statement(
    names: Seq<Seq<char>>,
    selection: RunSelection,
    filters: Seq<Formula>,
    types: ConditionTypes,
)
    requires
        selects_nothing(selection),
    ensures
        names.len() > 0 ==> fetch_plan(names, selection, filters, types) == Planned::Empty,
        fetch_runs_plan(selection, filters, types) == Planned::Empty,
{
}

fn finish_statement(head: Vec<char>, entries: &Vec<ConditionQueryEntry>, context: &Context) -> (r:
    Result<Plan, RCDBError>)
    requires
        aliased(entries@),
    ensures
        is_plan_of(
            r,
            statement(head@, joined_of(entries@), context.spec_selection(), context.predicates()),
        ),
{
    proof {
        lemma_formulas_of(context.spec_filters(), context.spec_filters().len());
    }
    let mut out = head;
    push_joins(&mut out, entries);
    let table = alias_table(entries);
    let (mut clauses, mut params) = selection_where(context.selection());
    match filter_where(context.filters(), &table, &mut clauses, &mut params) {
        Ok(()) => {},
        Err(e) => {
            return Err(e);
        },
    }
    push_where(&mut out, &clauses);
    append_str(&mut out, " ORDER BY runs.number");
    let columns = selected_of(entries);
    Ok(Plan::Query(QueryPlan { sql: string_of(&out), params, columns }))
}

fn selection_is_empty(selection: &RunSelection) -> (r: bool)
    ensures
        r == selects_nothing(*selection),
{
    match selection {
        RunSelection::Runs(runs) => runs.len() == 0,
        _ => false,
    }
}

/// Plans the fetch of the conditions `condition_names` for the runs of
/// `context`.
pub fn plan_fetch(condition_names: &Vec<String>, context: &Context, types: &ConditionTypes) -> (r:
    Result<Plan, RCDBError>)
    ensures
        is_plan_of(
            r,
            fetch_plan(
                string_views(condition_names@),
                context.spec_selection(),
                context.predicates(),
                *types,
            ),
        ),
{
    if condition_names.len() == 0 {
        return Err(RCDBError::EmptyConditionList);
    }
    if selection_is_empty(context.selection()) {
        return Ok(Plan::Empty);
    }
    let mut entries: Vec<ConditionQueryEntry> = Vec::new();
    assert(joined_of(entries@) == Seq::<Joined>::empty());
    proof {
        lemma_formulas_of(context.spec_filters(), context.spec_filters().len());
    }
    match join_names(types, condition_names, true, &mut entries) {
        Ok(()) => {},
        Err(e) => {
            return Err(e);
        },
    }
    let refs = collect_references(context.filters());
    match join_names(types, &refs, false, &mut entries) {
        Ok(()) => {},
        Err(e) => {
            return Err(e);
        },
    }
    let mut head = chars_of("SELECT runs.number");
    push_select_list(&mut head, &entries);
    append_str(&mut head, " FROM runs ");
    finish_statement(head, &entries, context)
}

/// Plans the listing of the runs of `context`.
pub fn plan_fetch_runs(context: &Context, types: &ConditionTypes) -> (r: Result<Plan, RCDBError>)
    ensures
        is_plan_of(r, fetch_runs_plan(context.spec_selection(), context.predicates(), *types)),
{
    if selection_is_empty(context.selection()) {
        return Ok(Plan::Empty);
    }
    let mut entries: Vec<ConditionQueryEntry> = Vec::new();
    assert(joined_of(entries@) == Seq::<Joined>::empty());
    proof {
        lemma_formulas_of(context.spec_filters(), context.spec_filters().len());
    }
    let refs = collect_references(context.filters());
    match join_names(types, &refs, false, &mut entries) {
        Ok(()) => {},
        Err(e) => {
            return Err(e);
        },
    }
    let head = chars_of("SELECT DISTINCT runs.number FROM runs ");
    finish_statement(head, &entries, context)
}

/// The schema version that the library reads.
pub const SCHEMA_VERSION: i64 = 2;

/// Whether the database is of the schema that the library reads: among its
/// schema versions is version 2.
pub fn ensure_schema_version(versions: &Vec<i64>) -> (r: Result<(), RCDBError>)
    ensures
        match r {
            Ok(_) => versions@.contains(SCHEMA_VERSION),
            Err(RCDBError::MissingSchemaVersion) => !versions@.contains(SCHEMA_VERSION),
            Err(_) => false,
        },
{
    let mut i: usize = 0;
    while i < versions.len()
        invariant
            i <= versions.len(),
            forall|k: int| 0 <= k < i ==> versions@[k] != SCHEMA_VERSION,
        decreases versions.len() - i,
    {
        if versions[i] == SCHEMA_VERSION {
            return Ok(());
        }
        i += 1;
    }
    Err(RCDBError::MissingSchemaVersion)
}

} // verus!
