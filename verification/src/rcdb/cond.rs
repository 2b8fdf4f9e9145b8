//! Predicate expressions over run conditions, and their compilation to
//! parameterized SQL.

use vstd::prelude::*;
use std::sync::Arc;
use crate::float::Float64;
use crate::rcdb::error::RCDBError;
use crate::rcdb::models::ValueType;
use crate::text::{append_chars, append_str, chars_of, join, join_chars, last_index_of, same_chars, string_of, string_views, views};
use crate::timestamp::{civil_text, Civil, Timestamp};

verus! {

/// A value bound to a `?` of a statement.
#[derive(Debug, Clone)]
pub enum SqlValue {
    Integer(i64),
    Real(Float64),
    Text(String),
}

/// A bound value as a mathematical value; a real number by its bit pattern.
pub enum SqlDatum {
    Integer(i64),
    Real(u64),
    Text(Seq<char>),
}

impl View for SqlValue {
    type V = SqlDatum;

    open spec fn view(&self) -> SqlDatum {
        match *self {
            SqlValue::Integer(v) => SqlDatum::Integer(v),
            SqlValue::Real(v) => SqlDatum::Real(v@),
            SqlValue::Text(v) => SqlDatum::Text(v@),
        }
    }
}

/// The bound values as mathematical values, in order.
pub open spec fn sql_views(params: Seq<SqlValue>) -> Seq<SqlDatum> {
    Seq::new(params.len(), |i: int| params[i]@)
}

/// Whether the clauses of a group must all hold or one of them.
#[derive(Debug, Clone, Copy, PartialEq, Eq, Structural)]
pub enum GroupKind {
    And,
    Or,
}

/// What a comparison asks of a condition's value.
#[derive(Debug, Clone)]
pub enum Operator {
    Bool(bool),
    IntEquals(i64),
    IntNotEquals(i64),
    IntGt(i64),
    IntGe(i64),
    IntLt(i64),
    IntLe(i64),
    FloatEquals(Float64),
    FloatGt(Float64),
    FloatGe(Float64),
    FloatLt(Float64),
    FloatLe(Float64),
    StringEquals(String),
    StringNotEquals(String),
    StringIn(Vec<String>),
    StringContains(String),
    TimeEquals(Timestamp),
    TimeGt(Timestamp),
    TimeGe(Timestamp),
    TimeLt(Timestamp),
    TimeLe(Timestamp),
    Exists,
}

/// An [`Operator`] as a mathematical value.
pub enum Test {
    Bool(bool),
    IntEquals(i64),
    IntNotEquals(i64),
    IntGt(i64),
    IntGe(i64),
    IntLt(i64),
    IntLe(i64),
    FloatEquals(u64),
    FloatGt(u64),
    FloatGe(u64),
    FloatLt(u64),
    FloatLe(u64),
    StringEquals(Seq<char>),
    StringNotEquals(Seq<char>),
    StringIn(Seq<Seq<char>>),
    StringContains(Seq<char>),
    TimeEquals(Civil),
    TimeGt(Civil),
    TimeGe(Civil),
    TimeLt(Civil),
    TimeLe(Civil),
    Exists,
}

impl View for Operator {
    type V = Test;

    open spec fn view(&self) -> Test {
        match *self {
            Operator::Bool(v) => Test::Bool(v),
            Operator::IntEquals(v) => Test::IntEquals(v),
            Operator::IntNotEquals(v) => Test::IntNotEquals(v),
            Operator::IntGt(v) => Test::IntGt(v),
            Operator::IntGe(v) => Test::IntGe(v),
            Operator::IntLt(v) => Test::IntLt(v),
            Operator::IntLe(v) => Test::IntLe(v),
            Operator::FloatEquals(v) => Test::FloatEquals(v@),
            Operator::FloatGt(v) => Test::FloatGt(v@),
            Operator::FloatGe(v) => Test::FloatGe(v@),
            Operator::FloatLt(v) => Test::FloatLt(v@),
            Operator::FloatLe(v) => Test::FloatLe(v@),
            Operator::StringEquals(v) => Test::StringEquals(v@),
            Operator::StringNotEquals(v) => Test::StringNotEquals(v@),
            Operator::StringIn(v) => Test::StringIn(string_views(v@)),
            Operator::StringContains(v) => Test::StringContains(v@),
            Operator::TimeEquals(v) => Test::TimeEquals(v@),
            Operator::TimeGt(v) => Test::TimeGt(v@),
            Operator::TimeGe(v) => Test::TimeGe(v@),
            Operator::TimeLt(v) => Test::TimeLt(v@),
            Operator::TimeLe(v) => Test::TimeLe(v@),
            Operator::Exists => Test::Exists,
        }
    }
}

/// One comparison of a named condition.
#[derive(Debug, Clone)]
pub struct Comparison {
    pub field: String,
    pub value_type: ValueType,
    pub operator: Operator,
}

/// The four forms of an expression.
#[derive(Debug, Clone)]
pub enum ExprInner {
    True,
    Comparison(Comparison),
    Group { kind: GroupKind, clauses: Vec<Expr> },
    Not(Expr),
}

/// A predicate over the conditions of a run. Copies share the tree.
#[derive(Debug)]
pub struct Expr(pub Arc<ExprInner>);

impl Clone for Expr {
    fn clone(&self) -> (r: Self)
        ensures
            r == *self,
    {
        Expr(self.0.clone())
    }
}

/// A predicate as a mathematical value.
pub enum Formula {
    True,
    Comparison { field: Seq<char>, value_type: ValueType, test: Test },
    Group { kind: GroupKind, clauses: Seq<Formula> },
    Not(Box<Formula>),
}

/// The predicate that `e` stands for.
pub open spec fn formula_of(e: Expr) -> Formula
    decreases e,
{
    match *e.0 {
        ExprInner::True => Formula::True,
        ExprInner::Comparison(c) => Formula::Comparison {
            field: c.field@,
            value_type: c.value_type,
            test: c.operator@,
        },
        ExprInner::Group { kind, clauses } => Formula::Group {
            kind,
            clauses: formulas_of(clauses@, clauses@.len()),
        },
        ExprInner::Not(inner) => Formula::Not(Box::new(formula_of(inner))),
    }
}

/// The predicates that the first `n` of `clauses` stand for.
pub open spec fn formulas_of(clauses: Seq<Expr>, n: nat) -> Seq<Formula>
    decreases clauses, n,
{
    if n == 0 || n > clauses.len() {
        Seq::<Formula>::empty()
    } else {
        formulas_of(clauses, (n - 1) as nat).push(formula_of(clauses[n - 1]))
    }
}

impl View for Expr {
    type V = Formula;

    open spec fn view(&self) -> Formula {
        formula_of(*self)
    }
}

/// The predicates of the first `n` clauses are `n`, each that of its clause.
pub proof fn lemma_formulas_of(clauses: Seq<Expr>, n: nat)
    requires
        n <= clauses.len(),
    ensures
        formulas_of(clauses, n).len() == n,
        forall|i: int| 0 <= i < n ==> #[trigger] formulas_of(clauses, n)[i] == formula_of(clauses[i]),
    decreases n,
{
    if n > 0 {
        lemma_formulas_of(clauses, (n - 1) as nat);
    }
}

/// One joined condition of a query: the name of the condition, the alias
/// of its join and the type that the database declares for it.
#[derive(Debug, Clone)]
pub struct AliasInfo {
    pub name: String,
    pub alias: String,
    pub value_type: ValueType,
}

/// A joined condition as a mathematical value.
pub struct Alias {
    pub name: Seq<char>,
    pub alias: Seq<char>,
    pub value_type: ValueType,
}

impl View for AliasInfo {
    type V = Alias;

    open spec fn view(&self) -> Alias {
        Alias { name: self.name@, alias: self.alias@, value_type: self.value_type }
    }
}

/// The joined conditions as mathematical values, in order.
pub open spec fn alias_views(table: Seq<AliasInfo>) -> Seq<Alias> {
    Seq::new(table.len(), |i: int| table[i]@)
}

/// The names of the joined conditions, in order.
pub open spec fn alias_names(table: Seq<Alias>) -> Seq<Seq<char>> {
    Seq::new(table.len(), |i: int| table[i].name)
}

/// The place of the entry that `name` refers to: the last one that bears
/// the name, or -1.
pub open spec fn alias_index(table: Seq<Alias>, name: Seq<char>) -> int {
    last_index_of(alias_names(table), name)
}

/// Why an expression does not compile.
pub enum Fault {
    /// No joined condition bears the name.
    NotFound(Seq<char>),
    /// The expression declares the named condition as `expected`, the
    /// database as `actual`.
    Mismatch { name: Seq<char>, expected: ValueType, actual: ValueType },
}

/// What compiling one expression comes to.
pub enum Compiled {
    Sql { text: Seq<char>, params: Seq<SqlDatum> },
    Fault(Fault),
}

/// What compiling a list of expressions comes to.
pub enum CompiledList {
    Parts { texts: Seq<Seq<char>>, params: Seq<SqlDatum> },
    Fault(Fault),
}

/// `n` question marks with `, ` between them.
pub open spec fn placeholders(n: nat) -> Seq<char>
    decreases n,
{
    if n == 0 {
        Seq::<char>::empty()
    } else if n == 1 {
        "?"@
    } else {
        placeholders((n - 1) as nat) + ", ?"@
    }
}

/// `alias.column symbol ?`.
pub open spec fn binary_sql(alias: Seq<char>, column: Seq<char>, symbol: Seq<char>) -> Seq<char> {
    alias + "."@ + column + " "@ + symbol + " ?"@
}

/// Each text as a bound text value.
pub open spec fn text_params(values: Seq<Seq<char>>) -> Seq<SqlDatum> {
    Seq::new(values.len(), |i: int| SqlDatum::Text(values[i]))
}

/// The SQL of a test on the condition joined as `alias`.
pub open spec fn test_sql(test: Test, alias: Seq<char>, value_type: ValueType) -> Seq<char> {
    match test {
        Test::Bool(true) => alias + ".bool_value = 1"@,
        Test::Bool(false) => alias + ".bool_value = 0"@,
        Test::IntEquals(_) => binary_sql(alias, "int_value"@, "="@),
        Test::IntNotEquals(_) => binary_sql(alias, "int_value"@, "!="@),
        Test::IntGt(_) => binary_sql(alias, "int_value"@, ">"@),
        Test::IntGe(_) => binary_sql(alias, "int_value"@, ">="@),
        Test::IntLt(_) => binary_sql(alias, "int_value"@, "<"@),
        Test::IntLe(_) => binary_sql(alias, "int_value"@, "<="@),
        Test::FloatEquals(_) => binary_sql(alias, "float_value"@, "="@),
        Test::FloatGt(_) => binary_sql(alias, "float_value"@, ">"@),
        Test::FloatGe(_) => binary_sql(alias, "float_value"@, ">="@),
        Test::FloatLt(_) => binary_sql(alias, "float_value"@, "<"@),
        Test::FloatLe(_) => binary_sql(alias, "float_value"@, "<="@),
        Test::StringEquals(_) => binary_sql(alias, "text_value"@, "="@),
        Test::StringNotEquals(_) => binary_sql(alias, "text_value"@, "!="@),
        Test::StringIn(values) => if values.len() == 0 {
            "1 = 0"@
        } else {
            alias + ".text_value IN ("@ + placeholders(values.len()) + ")"@
        },
        Test::StringContains(_) => "INSTR("@ + alias + ".text_value, ?) > 0"@,
        Test::TimeEquals(_) => binary_sql(alias, "time_value"@, "="@),
        Test::TimeGt(_) => binary_sql(alias, "time_value"@, ">"@),
        Test::TimeGe(_) => binary_sql(alias, "time_value"@, ">="@),
        Test::TimeLt(_) => binary_sql(alias, "time_value"@, "<"@),
        Test::TimeLe(_) => binary_sql(alias, "time_value"@, "<="@),
        Test::Exists => alias + "."@ + value_type.column() + " IS NOT NULL"@,
    }
}

/// The values that a test binds, in the order of its question marks. An
/// instant is bound as the text `YYYY-MM-DD HH:MM:SS`.
pub open spec fn test_params(test: Test) -> Seq<SqlDatum> {
    match test {
        Test::Bool(_) => Seq::<SqlDatum>::empty(),
        Test::IntEquals(v) => seq![SqlDatum::Integer(v)],
        Test::IntNotEquals(v) => seq![SqlDatum::Integer(v)],
        Test::IntGt(v) => seq![SqlDatum::Integer(v)],
        Test::IntGe(v) => seq![SqlDatum::Integer(v)],
        Test::IntLt(v) => seq![SqlDatum::Integer(v)],
        Test::IntLe(v) => seq![SqlDatum::Integer(v)],
        Test::FloatEquals(v) => seq![SqlDatum::Real(v)],
        Test::FloatGt(v) => seq![SqlDatum::Real(v)],
        Test::FloatGe(v) => seq![SqlDatum::Real(v)],
        Test::FloatLt(v) => seq![SqlDatum::Real(v)],
        Test::FloatLe(v) => seq![SqlDatum::Real(v)],
        Test::StringEquals(v) => seq![SqlDatum::Text(v)],
        Test::StringNotEquals(v) => seq![SqlDatum::Text(v)],
        Test::StringIn(values) => text_params(values),
        Test::StringContains(v) => seq![SqlDatum::Text(v)],
        Test::TimeEquals(v) => seq![SqlDatum::Text(civil_text(v))],
        Test::TimeGt(v) => seq![SqlDatum::Text(civil_text(v))],
        Test::TimeGe(v) => seq![SqlDatum::Text(civil_text(v))],
        Test::TimeLt(v) => seq![SqlDatum::Text(civil_text(v))],
        Test::TimeLe(v) => seq![SqlDatum::Text(civil_text(v))],
        Test::Exists => Seq::<SqlDatum>::empty(),
    }
}

/// Compiles one comparison: the condition must be joined, and under the
/// type that the comparison declares.
pub open spec fn compile_comparison(
    field: Seq<char>,
    value_type: ValueType,
    test: Test,
    table: Seq<Alias>,
) -> Compiled {
    let at = alias_index(table, field);
    if at < 0 {
        Compiled::Fault(Fault::NotFound(field))
    } else if table[at].value_type != value_type {
        Compiled::Fault(
            Fault::Mismatch { name: field, expected: value_type, actual: table[at].value_type },
        )
    } else {
        Compiled::Sql {
            text: test_sql(test, table[at].alias, value_type),
            params: test_params(test),
        }
    }
}

/// The word between the clauses of a group.
pub open spec fn joiner(kind: GroupKind) -> Seq<char> {
    match kind {
        GroupKind::And => " AND "@,
        GroupKind::Or => " OR "@,
    }
}

/// The SQL of a group whose clauses compiled to `texts`: `1 = 1` for none,
/// the clause itself for one, else the clauses joined in parentheses.
pub open spec fn group_sql(kind: GroupKind, texts: Seq<Seq<char>>) -> Seq<char> {
    if texts.len() == 0 {
        "1 = 1"@
    } else if texts.len() == 1 {
        texts[0]
    } else {
        "("@ + join(texts, joiner(kind)) + ")"@
    }
}

/// Compiles a predicate against the joined conditions `table`.
pub open spec fn compile(f: Formula, table: Seq<Alias>) -> Compiled
    decreases f,
{
    match f {
        Formula::True => Compiled::Sql { text: "1 = 1"@, params: Seq::<SqlDatum>::empty() },
        Formula::Comparison { field, value_type, test } => compile_comparison(
            field,
            value_type,
            test,
            table,
        ),
        Formula::Group { kind, clauses } => match compile_all(clauses, table, clauses.len()) {
            CompiledList::Fault(fault) => Compiled::Fault(fault),
            CompiledList::Parts { texts, params } => Compiled::Sql {
                text: group_sql(kind, texts),
                params,
            },
        },
        Formula::Not(inner) => match compile(*inner, table) {
            Compiled::Fault(fault) => Compiled::Fault(fault),
            Compiled::Sql { text, params } => Compiled::Sql {
                text: "NOT ("@ + text + ")"@,
                params,
            },
        },
    }
}

/// Compiles the first `n` of `clauses` in order; the first fault ends it.
pub open spec fn compile_all(clauses: Seq<Formula>, table: Seq<Alias>, n: nat) -> CompiledList
    decreases clauses, n,
{
    if n == 0 || n > clauses.len() {
        CompiledList::Parts { texts: Seq::<Seq<char>>::empty(), params: Seq::<SqlDatum>::empty() }
    } else {
        match compile_all(clauses, table, (n - 1) as nat) {
            CompiledList::Fault(fault) => CompiledList::Fault(fault),
            CompiledList::Parts { texts, params } => match compile(clauses[n - 1], table) {
                Compiled::Fault(fault) => CompiledList::Fault(fault),
                Compiled::Sql { text, params: more } => CompiledList::Parts {
                    texts: texts.push(text),
                    params: params + more,
                },
            },
        }
    }
}

/// Whether the error `e` reports the fault `f`.
pub open spec fn reports(e: RCDBError, f: Fault) -> bool {
    match f {
        Fault::NotFound(name) => e matches RCDBError::ConditionTypeNotFound(text) && text@ == name,
        Fault::Mismatch { name, expected, actual } => e matches RCDBError::ConditionTypeMismatch {
            condition_name,
            expected: wanted,
            actual: found,
        } && condition_name@ == name && wanted == expected && found == actual,
    }
}

/// Whether `r`, with the bound values going from `before` to `after`, is
/// what compiling `f` must yield: the SQL with its values appended, or the
/// error, with the values bound so far kept.
pub open spec fn is_compilation_of(
    r: Result<String, RCDBError>,
    before: Seq<SqlValue>,
    after: Seq<SqlValue>,
    f: Formula,
    table: Seq<Alias>,
) -> bool {
    match compile(f, table) {
        Compiled::Sql { text, params } => r matches Ok(s) && s@ == text && sql_views(after)
            == sql_views(before) + params,
        Compiled::Fault(fault) => r matches Err(e) && reports(e, fault) && before.len()
            <= after.len() && sql_views(after).take(before.len() as int) == sql_views(before),
    }
}

fn find_alias(table: &Vec<AliasInfo>, name: &str) -> (r: Option<usize>)
    ensures
        match r {
            Some(at) => at == alias_index(alias_views(table@), name@) && at < table@.len(),
            None => alias_index(alias_views(table@), name@) == -1,
        },
{
    let wanted = chars_of(name);
    let mut i: usize = table.len();
    let ghost all = alias_names(alias_views(table@));
    assert(all.take(all.len() as int) == all);
    while i > 0
        invariant
            0 <= i <= table.len(),
            all == alias_names(alias_views(table@)),
            wanted@ == name@,
            last_index_of(all, name@) == last_index_of(all.take(i as int), name@),
        decreases i,
    {
        let here = chars_of(table[i - 1].name.as_str());
        proof {
            assert(all.take(i as int).last() == all[i - 1]);
            assert(all.take(i as int).drop_last() == all.take(i - 1));
        }
        if same_chars(&here, &wanted) {
            return Some(i - 1);
        }
        i -= 1;
    }
    None
}

/// Appends `n` question marks with `, ` between them.
pub fn push_placeholders(out: &mut Vec<char>, n: usize)
    ensures
        final(out)@ == old(out)@ + placeholders(n as nat),
{
    let mut i: usize = 0;
    assert(out@ == old(out)@ + placeholders(0));
    while i < n
        invariant
            i <= n,
            out@ == old(out)@ + placeholders(i as nat),
        decreases n - i,
    {
        let ghost so_far = out@;
        if i == 0 {
            append_str(out, "?");
            assert(out@ == old(out)@ + placeholders(1));
        } else {
            append_str(out, ", ?");
            assert(out@ == old(out)@ + (placeholders(i as nat) + ", ?"@));
        }
        i += 1;
    }
}

fn push_param(params: &mut Vec<SqlValue>, alias: &str, column: &str, op: &str, value: SqlValue) -> (s:
    String)
    ensures
        s@ == binary_sql(alias@, column@, op@),
        final(params)@ == old(params)@.push(value),
        sql_views(final(params)@) == sql_views(old(params)@) + seq![value@],
{
    params.push(value);
    let mut out: Vec<char> = Vec::new();
    append_str(&mut out, alias);
    append_str(&mut out, ".");
    append_str(&mut out, column);
    append_str(&mut out, " ");
    append_str(&mut out, op);
    append_str(&mut out, " ?");
    assert(out@ == binary_sql(alias@, column@, op@));
    assert(sql_views(params@) == sql_views(old(params)@) + seq![value@]);
    string_of(&out)
}

fn push_time(params: &mut Vec<SqlValue>, alias: &str, op: &str, value: &Timestamp) -> (s: String)
    ensures
        s@ == binary_sql(alias@, "time_value"@, op@),
        final(params)@.len() == old(params)@.len() + 1,
        sql_views(final(params)@) == sql_views(old(params)@) + seq![
            SqlDatum::Text(civil_text(value@)),
        ],
{
    push_param(params, alias, "time_value", op, SqlValue::Text(format_time(value)))
}

/// The text that an instant is bound as.
pub fn format_time(value: &Timestamp) -> (s: String)
    ensures
        s@ == civil_text(value@),
{
    value.to_text()
}

/// Once a clause has failed to compile, the list fails with the same fault
/// however many more clauses are looked at.
pub proof fn lemma_compile_all_fault(clauses: Seq<Formula>, table: Seq<Alias>, k: nat, n: nat)
    requires
        compile_all(clauses, table, k) is Fault,
        k <= n <= clauses.len(),
    ensures
        compile_all(clauses, table, n) == compile_all(clauses, table, k),
    decreases n,
{
    if k < n {
        lemma_compile_all_fault(clauses, table, k, (n - 1) as nat);
    }
}

impl Comparison {
    /// The predicate that the comparison stands for.
    pub open spec fn formula(&self) -> Formula {
        Formula::Comparison { field: self.field@, value_type: self.value_type, test: self.operator@ }
    }

    /// Compiles the comparison against the joined conditions `table`,
    /// appending the values it binds to `params`.
    pub fn to_sql(&self, table: &Vec<AliasInfo>, params: &mut Vec<SqlValue>) -> (r: Result<
        String,
        RCDBError,
    >)
        ensures
            is_compilation_of(r, old(params)@, final(params)@, self.formula(), alias_views(table@)),
    {
        assert(sql_views(params@).take(params@.len() as int) == sql_views(params@));
        assert(sql_views(params@) + Seq::<SqlDatum>::empty() == sql_views(params@));
        let at = match find_alias(table, self.field.as_str()) {
            Some(at) => at,
            None => {
                return Err(RCDBError::ConditionTypeNotFound(self.field.clone()));
            },
        };
        let info = &table[at];
        if info.value_type != self.value_type {
            return Err(
                RCDBError::ConditionTypeMismatch {
                    condition_name: self.field.clone(),
                    expected: self.value_type,
                    actual: info.value_type,
                },
            );
        }
        let alias = info.alias.as_str();
        let text = match &self.operator {
            Operator::Bool(true) => {
                let mut out = chars_of(alias);
                append_str(&mut out, ".bool_value = 1");
                string_of(&out)
            },
            Operator::Bool(false) => {
                let mut out = chars_of(alias);
                append_str(&mut out, ".bool_value = 0");
                string_of(&out)
            },
            Operator::IntEquals(v) => push_param(params, alias, "int_value", "=", SqlValue::Integer(*v)),
            Operator::IntNotEquals(v) => push_param(
                params,
                alias,
                "int_value",
                "!=",
                SqlValue::Integer(*v),
            ),
            Operator::IntGt(v) => push_param(params, alias, "int_value", ">", SqlValue::Integer(*v)),
            Operator::IntGe(v) => push_param(params, alias, "int_value", ">=", SqlValue::Integer(*v)),
            Operator::IntLt(v) => push_param(params, alias, "int_value", "<", SqlValue::Integer(*v)),
            Operator::IntLe(v) => push_param(params, alias, "int_value", "<=", SqlValue::Integer(*v)),
            Operator::FloatEquals(v) => push_param(params, alias, "float_value", "=", SqlValue::Real(*v)),
            Operator::FloatGt(v) => push_param(params, alias, "float_value", ">", SqlValue::Real(*v)),
            Operator::FloatGe(v) => push_param(params, alias, "float_value", ">=", SqlValue::Real(*v)),
            Operator::FloatLt(v) => push_param(params, alias, "float_value", "<", SqlValue::Real(*v)),
            Operator::FloatLe(v) => push_param(params, alias, "float_value", "<=", SqlValue::Real(*v)),
            Operator::StringEquals(v) => push_param(
                params,
                alias,
                "text_value",
                "=",
                SqlValue::Text(v.clone()),
            ),
            Operator::StringNotEquals(v) => push_param(
                params,
                alias,
                "text_value",
                "!=",
                SqlValue::Text(v.clone()),
            ),
            Operator::StringIn(values) => {
                if values.len() == 0 {
                    assert(string_views(values@).len() == 0);
                    assert(text_params(string_views(values@)) == Seq::<SqlDatum>::empty());
                    "1 = 0".to_owned()
                } else {
                    let mut i: usize = 0;
                    while i < values.len()
                        invariant
                            i <= values.len(),
                            sql_views(params@) == sql_views(old(params)@) + text_params(
                                string_views(values@),
                            ).take(i as int),
                        decreases values.len() - i,
                    {
                        let ghost so_far = sql_views(params@);
                        params.push(SqlValue::Text(values[i].clone()));
                        assert(sql_views(params@) == so_far.push(SqlDatum::Text(values@[i as int]@)));
                        assert(sql_views(params@) == sql_views(old(params)@) + text_params(
                            string_views(values@),
                        ).take(i + 1));
                        i += 1;
                    }
                    assert(text_params(string_views(values@)).take(values@.len() as int)
                        == text_params(string_views(values@)));
                    let mut out = chars_of(alias);
                    append_str(&mut out, ".text_value IN (");
                    push_placeholders(&mut out, values.len());
                    append_str(&mut out, ")");
                    assert(string_views(values@).len() == values@.len());
                    string_of(&out)
                }
            },
            Operator::StringContains(v) => {
                let ghost so_far = sql_views(params@);
                params.push(SqlValue::Text(v.clone()));
                assert(sql_views(params@) == so_far + seq![SqlDatum::Text(v@)]);
                let mut out = chars_of("INSTR(");
                append_str(&mut out, alias);
                append_str(&mut out, ".text_value, ?) > 0");
                string_of(&out)
            },
            Operator::TimeEquals(v) => push_time(params, alias, "=", v),
            Operator::TimeGt(v) => push_time(params, alias, ">", v),
            Operator::TimeGe(v) => push_time(params, alias, ">=", v),
            Operator::TimeLt(v) => push_time(params, alias, "<", v),
            Operator::TimeLe(v) => push_time(params, alias, "<=", v),
            Operator::Exists => {
                let mut out = chars_of(alias);
                append_str(&mut out, ".");
                append_str(&mut out, self.value_type.column_name());
                append_str(&mut out, " IS NOT NULL");
                string_of(&out)
            },
        };
        Ok(text)
    }
}

/// The names of the conditions that a predicate compares, in the order in
/// which they occur.
pub open spec fn references(f: Formula) -> Seq<Seq<char>>
    decreases f,
{
    match f {
        Formula::True => Seq::<Seq<char>>::empty(),
        Formula::Comparison { field, .. } => seq![field],
        Formula::Group { clauses, .. } => references_all(clauses, clauses.len()),
        Formula::Not(inner) => references(*inner),
    }
}

/// The names that the first `n` of `clauses` compare.
pub open spec fn references_all(clauses: Seq<Formula>, n: nat) -> Seq<Seq<char>>
    decreases clauses, n,
{
    if n == 0 || n > clauses.len() {
        Seq::<Seq<char>>::empty()
    } else {
        references_all(clauses, (n - 1) as nat) + references(clauses[n - 1])
    }
}

impl Expr {
    /// Appends to `out` the names of the conditions that the expression
    /// compares.
    pub fn referenced_conditions(&self, out: &mut Vec<String>)
        ensures
            string_views(final(out)@) == string_views(old(out)@) + references(self@),
        decreases *self,
    {
        match &*self.0 {
            ExprInner::True => {
                assert(string_views(out@) + Seq::<Seq<char>>::empty() == string_views(out@));
            },
            ExprInner::Comparison(c) => {
                out.push(c.field.clone());
                assert(string_views(out@) == string_views(old(out)@) + seq![c.field@]);
            },
            ExprInner::Group { kind, clauses } => {
                let ghost fs = formulas_of(clauses@, clauses@.len());
                proof {
                    lemma_formulas_of(clauses@, clauses@.len());
                    assert(string_views(out@) + Seq::<Seq<char>>::empty() == string_views(out@));
                }
                let mut i: usize = 0;
                while i < clauses.len()
                    invariant
                        i <= clauses.len(),
                        decreases_to!(*self => *clauses),
                        fs == formulas_of(clauses@, clauses@.len()),
                        fs.len() == clauses@.len(),
                        forall|k: int| 0 <= k < fs.len() ==> #[trigger] fs[k] == formula_of(clauses@[k]),
                        string_views(out@) == string_views(old(out)@) + references_all(fs, i as nat),
                    decreases clauses.len() - i,
                {
                    assert(decreases_to!(*clauses => clauses[i as int]));
                    let ghost so_far = string_views(out@);
                    clauses[i].referenced_conditions(out);
                    assert(string_views(out@) == string_views(old(out)@) + (references_all(
                        fs,
                        i as nat,
                    ) + references(fs[i as int])));
                    i += 1;
                }
            },
            ExprInner::Not(inner) => {
                inner.referenced_conditions(out);
            },
        }
    }

    /// Compiles the expression against the joined conditions `table`,
    /// appending the values it binds to `params`.
    pub fn to_sql(&self, table: &Vec<AliasInfo>, params: &mut Vec<SqlValue>) -> (r: Result<
        String,
        RCDBError,
    >)
        ensures
            is_compilation_of(r, old(params)@, final(params)@, self@, alias_views(table@)),
        decreases *self,
    {
        assert(sql_views(params@).take(params@.len() as int) == sql_views(params@));
        assert(sql_views(params@) + Seq::<SqlDatum>::empty() == sql_views(params@));
        match &*self.0 {
            ExprInner::True => Ok("1 = 1".to_owned()),
            ExprInner::Comparison(c) => c.to_sql(table, params),
            ExprInner::Group { kind, clauses } => {
                let ghost fs = formulas_of(clauses@, clauses@.len());
                let ghost mut added = Seq::<SqlDatum>::empty();
                proof {
                    lemma_formulas_of(clauses@, clauses@.len());
                }
                let mut rendered: Vec<Vec<char>> = Vec::new();
                let mut i: usize = 0;
                assert(views(rendered@) == Seq::<Seq<char>>::empty());
                while i < clauses.len()
                    invariant
                        i <= clauses.len(),
                        decreases_to!(*self => *clauses),
                        fs == formulas_of(clauses@, clauses@.len()),
                        fs.len() == clauses@.len(),
                        forall|k: int| 0 <= k < fs.len() ==> #[trigger] fs[k] == formula_of(clauses@[k]),
                        compile_all(fs, alias_views(table@), i as nat) == (CompiledList::Parts {
                            texts: views(rendered@),
                            params: added,
                        }),
                        sql_views(params@) == sql_views(old(params)@) + added,
                        self@ == (Formula::Group { kind: *kind, clauses: fs }),
                    decreases clauses.len() - i,
                {
                    assert(decreases_to!(*clauses => clauses[i as int]));
                    let ghost before = params@;
                    let ghost texts = views(rendered@);
                    match clauses[i].to_sql(table, params) {
                        Ok(text) => {
                            rendered.push(chars_of(text.as_str()));
                            proof {
                                let more = compile(fs[i as int], alias_views(table@))->Sql_params;
                                assert(views(rendered@) == texts.push(text@));
                                assert(sql_views(params@) == sql_views(old(params)@) + (added + more));
                                added = added + more;
                            }
                        },
                        Err(e) => {
                            proof {
                                assert(compile_all(fs, alias_views(table@), (i + 1) as nat) is Fault);
                                lemma_compile_all_fault(fs, alias_views(table@), (i + 1) as nat, fs.len());
                                let n0 = old(params)@.len() as int;
                                assert(sql_views(before).len() == before.len());
                                assert(sql_views(old(params)@).len() == n0);
                                assert(n0 <= before.len());
                                assert(sql_views(params@).take(before.len() as int).take(n0)
                                    == sql_views(params@).take(n0));
                                assert(sql_views(params@).take(old(params)@.len() as int)
                                    == sql_views(before).take(old(params)@.len() as int));
                                assert(sql_views(before).take(old(params)@.len() as int)
                                    == sql_views(old(params)@));
                            }
                            return Err(e);
                        },
                    }
                    i += 1;
                }
                if rendered.len() == 0 {
                    return Ok("1 = 1".to_owned());
                }
                if rendered.len() == 1 {
                    return Ok(string_of(&rendered[0]));
                }
                let word = match kind {
                    GroupKind::And => chars_of(" AND "),
                    GroupKind::Or => chars_of(" OR "),
                };
                let inside = join_chars(&rendered, &word);
                let mut out = chars_of("(");
                append_chars(&mut out, &inside);
                append_str(&mut out, ")");
                Ok(string_of(&out))
            },
            ExprInner::Not(inner) => {
                match inner.to_sql(table, params) {
                    Ok(text) => {
                        let mut out = chars_of("NOT (");
                        append_str(&mut out, text.as_str());
                        append_str(&mut out, ")");
                        Ok(string_of(&out))
                    },
                    Err(e) => Err(e),
                }
            },
        }
    }

    /// Negates the expression.
    pub fn not(self) -> (r: Expr)
        ensures
            r@ == Formula::Not(Box::new(self@)),
    {
        Expr(Arc::new(ExprInner::Not(self)))
    }
}

/// `True` for no clause, the clause itself for one, else the group.
pub open spec fn combination(kind: GroupKind, clauses: Seq<Formula>) -> Formula {
    if clauses.len() == 0 {
        Formula::True
    } else if clauses.len() == 1 {
        clauses[0]
    } else {
        Formula::Group { kind, clauses }
    }
}

fn combine(kind: GroupKind, clauses: Vec<Expr>) -> (r: Expr)
    ensures
        r@ == combination(kind, formulas_of(clauses@, clauses@.len())),
{
    proof {
        lemma_formulas_of(clauses@, clauses@.len());
    }
    if clauses.len() == 0 {
        Expr(Arc::new(ExprInner::True))
    } else if clauses.len() == 1 {
        clauses[0].clone()
    } else {
        Expr(Arc::new(ExprInner::Group { kind, clauses }))
    }
}

/// The expression that holds where all of `clauses` hold.
pub fn all(clauses: Vec<Expr>) -> (r: Expr)
    ensures
        r@ == combination(GroupKind::And, formulas_of(clauses@, clauses@.len())),
{
    combine(GroupKind::And, clauses)
}

/// The expression that holds where one of `clauses` holds.
pub fn any(clauses: Vec<Expr>) -> (r: Expr)
    ensures
        r@ == combination(GroupKind::Or, formulas_of(clauses@, clauses@.len())),
{
    combine(GroupKind::Or, clauses)
}

/// What can be handed to a context as a list of expressions.
pub trait IntoExprList: Sized {
    /// The expressions of the list, in order.
    spec fn listed(self) -> Seq<Expr>;

    fn into_list(self) -> (r: Vec<Expr>)
        ensures
            r@ == self.listed(),
    ;
}

impl IntoExprList for Expr {
    open spec fn listed(self) -> Seq<Expr> {
        seq![self]
    }

    fn into_list(self) -> (r: Vec<Expr>) {
        let mut list: Vec<Expr> = Vec::new();
        list.push(self);
        assert(list@ == seq![self]);
        list
    }
}

impl IntoExprList for Vec<Expr> {
    open spec fn listed(self) -> Seq<Expr> {
        self@
    }

    fn into_list(self) -> (r: Vec<Expr>) {
        self
    }
}

/// A comparison as a predicate.
pub open spec fn comparison(field: Seq<char>, value_type: ValueType, test: Test) -> Formula {
    Formula::Comparison { field, value_type, test }
}

fn compare(field: String, value_type: ValueType, operator: Operator) -> (r: Expr)
    ensures
        r@ == comparison(field@, value_type, operator@),
{
    Expr(Arc::new(ExprInner::Comparison(Comparison { field, value_type, operator })))
}

/// Begins an integer comparison of the named condition.
pub fn int_cond(name: &str) -> (r: IntField)
    ensures
        r.name() == name@,
{
    IntField { field: name.to_owned() }
}

/// Builds the comparisons of an integer condition.
#[derive(Clone)]
pub struct IntField {
    field: String,
}

impl IntField {
    /// The name of the condition.
    pub closed spec fn name(&self) -> Seq<char> {
        self.field@
    }

    /// Holds where the condition is exactly equal to `value`.
    pub fn eq(self, value: i64) -> (r: Expr)
        ensures
            r@ == comparison(self.name(), ValueType::Int, Test::IntEquals(value)),
    {
        compare(self.field, ValueType::Int, Operator::IntEquals(value))
    }

    /// Holds where the condition is not equal to `value`.
    pub fn neq(self, value: i64) -> (r: Expr)
        ensures
            r@ == comparison(self.name(), ValueType::Int, Test::IntNotEquals(value)),
    {
        compare(self.field, ValueType::Int, Operator::IntNotEquals(value))
    }

    /// Holds where the condition is strictly greater than `value`.
    pub fn gt(self, value: i64) -> (r: Expr)
        ensures
            r@ == comparison(self.name(), ValueType::Int, Test::IntGt(value)),
    {
        compare(self.field, ValueType::Int, Operator::IntGt(value))
    }

    /// Holds where the condition is greater than or equal to `value`.
    pub fn geq(self, value: i64) -> (r: Expr)
        ensures
            r@ == comparison(self.name(), ValueType::Int, Test::IntGe(value)),
    {
        compare(self.field, ValueType::Int, Operator::IntGe(value))
    }

    /// Holds where the condition is strictly less than `value`.
    pub fn lt(self, value: i64) -> (r: Expr)
        ensures
            r@ == comparison(self.name(), ValueType::Int, Test::IntLt(value)),
    {
        compare(self.field, ValueType::Int, Operator::IntLt(value))
    }

    /// Holds where the condition is less than or equal to `value`.
    pub fn leq(self, value: i64) -> (r: Expr)
        ensures
            r@ == comparison(self.name(), ValueType::Int, Test::IntLe(value)),
    {
        compare(self.field, ValueType::Int, Operator::IntLe(value))
    }

}

/// Begins a floating-point comparison of the named condition.
pub fn float_cond(name: &str) -> (r: FloatField)
    ensures
        r.name() == name@,
{
    FloatField { field: name.to_owned() }
}

/// Builds the comparisons of a floating-point condition.
#[derive(Clone)]
pub struct FloatField {
    field: String,
}

impl FloatField {
    /// The name of the condition.
    pub closed spec fn name(&self) -> Seq<char> {
        self.field@
    }

    /// Holds where the condition is exactly equal to `value`.
    pub fn eq(self, value: Float64) -> (r: Expr)
        ensures
            r@ == comparison(self.name(), ValueType::Float, Test::FloatEquals(value@)),
    {
        compare(self.field, ValueType::Float, Operator::FloatEquals(value))
    }

    /// Holds where the condition is strictly greater than `value`.
    pub fn gt(self, value: Float64) -> (r: Expr)
        ensures
            r@ == comparison(self.name(), ValueType::Float, Test::FloatGt(value@)),
    {
        compare(self.field, ValueType::Float, Operator::FloatGt(value))
    }

    /// Holds where the condition is greater than or equal to `value`.
    pub fn geq(self, value: Float64) -> (r: Expr)
        ensures
            r@ == comparison(self.name(), ValueType::Float, Test::FloatGe(value@)),
    {
        compare(self.field, ValueType::Float, Operator::FloatGe(value))
    }

    /// Holds where the condition is strictly less than `value`.
    pub fn lt(self, value: Float64) -> (r: Expr)
        ensures
            r@ == comparison(self.name(), ValueType::Float, Test::FloatLt(value@)),
    {
        compare(self.field, ValueType::Float, Operator::FloatLt(value))
    }

    /// Holds where the condition is less than or equal to `value`.
    pub fn leq(self, value: Float64) -> (r: Expr)
        ensures
            r@ == comparison(self.name(), ValueType::Float, Test::FloatLe(value@)),
    {
        compare(self.field, ValueType::Float, Operator::FloatLe(value))
    }

}

/// Begins a string comparison of the named condition.
pub fn string_cond(name: &str) -> (r: StringField)
    ensures
        r.name() == name@,
{
    StringField { field: name.to_owned() }
}

/// Builds the comparisons of a string condition.
#[derive(Clone)]
pub struct StringField {
    field: String,
}

impl StringField {
    /// The name of the condition.
    pub closed spec fn name(&self) -> Seq<char> {
        self.field@
    }

    /// Holds where the condition is exactly equal to `value`.
    pub fn eq(self, value: &str) -> (r: Expr)
        ensures
            r@ == comparison(self.name(), ValueType::String, Test::StringEquals(value@)),
    {
        compare(self.field, ValueType::String, Operator::StringEquals(value.to_owned()))
    }

    /// Holds where the condition is not equal to `value`.
    pub fn neq(self, value: &str) -> (r: Expr)
        ensures
            r@ == comparison(self.name(), ValueType::String, Test::StringNotEquals(value@)),
    {
        compare(self.field, ValueType::String, Operator::StringNotEquals(value.to_owned()))
    }

    /// Holds where the condition is one of `values`.
    pub fn isin(self, values: Vec<String>) -> (r: Expr)
        ensures
            r@ == comparison(self.name(), ValueType::String, Test::StringIn(string_views(values@))),
    {
        compare(self.field, ValueType::String, Operator::StringIn(values))
    }

    /// Holds where the condition is a text that contains `value`.
    pub fn contains(self, value: &str) -> (r: Expr)
        ensures
            r@ == comparison(self.name(), ValueType::String, Test::StringContains(value@)),
    {
        compare(self.field, ValueType::String, Operator::StringContains(value.to_owned()))
    }

}

/// Begins a boolean comparison of the named condition.
pub fn bool_cond(name: &str) -> (r: BoolField)
    ensures
        r.name() == name@,
{
    BoolField { field: name.to_owned() }
}

/// Builds the comparisons of a boolean condition.
#[derive(Clone)]
pub struct BoolField {
    field: String,
}

impl BoolField {
    /// The name of the condition.
    pub closed spec fn name(&self) -> Seq<char> {
        self.field@
    }

    /// Holds where the condition is true.
    pub fn is_true(self) -> (r: Expr)
        ensures
            r@ == comparison(self.name(), ValueType::Bool, Test::Bool(true)),
    {
        compare(self.field, ValueType::Bool, Operator::Bool(true))
    }

    /// Holds where the condition is false.
    pub fn is_false(self) -> (r: Expr)
        ensures
            r@ == comparison(self.name(), ValueType::Bool, Test::Bool(false)),
    {
        compare(self.field, ValueType::Bool, Operator::Bool(false))
    }

    /// Holds where the condition is present.
    pub fn is_present(self) -> (r: Expr)
        ensures
            r@ == comparison(self.name(), ValueType::Bool, Test::Exists),
    {
        compare(self.field, ValueType::Bool, Operator::Exists)
    }

}

/// Begins a timestamp comparison of the named condition.
pub fn time_cond(name: &str) -> (r: TimeField)
    ensures
        r.name() == name@,
{
    TimeField { field: name.to_owned() }
}

/// Builds the comparisons of a timestamp condition.
#[derive(Clone)]
pub struct TimeField {
    field: String,
}

impl TimeField {
    /// The name of the condition.
    pub closed spec fn name(&self) -> Seq<char> {
        self.field@
    }

    /// Holds where the condition is equal to `value`.
    pub fn eq(self, value: Timestamp) -> (r: Expr)
        ensures
            r@ == comparison(self.name(), ValueType::Time, Test::TimeEquals(value@)),
    {
        compare(self.field, ValueType::Time, Operator::TimeEquals(value))
    }

    /// Holds where the condition is strictly later than `value`.
    pub fn gt(self, value: Timestamp) -> (r: Expr)
        ensures
            r@ == comparison(self.name(), ValueType::Time, Test::TimeGt(value@)),
    {
        compare(self.field, ValueType::Time, Operator::TimeGt(value))
    }

    /// Holds where the condition is not earlier than `value`.
    pub fn geq(self, value: Timestamp) -> (r: Expr)
        ensures
            r@ == comparison(self.name(), ValueType::Time, Test::TimeGe(value@)),
    {
        compare(self.field, ValueType::Time, Operator::TimeGe(value))
    }

    /// Holds where the condition is strictly earlier than `value`.
    pub fn lt(self, value: Timestamp) -> (r: Expr)
        ensures
            r@ == comparison(self.name(), ValueType::Time, Test::TimeLt(value@)),
    {
        compare(self.field, ValueType::Time, Operator::TimeLt(value))
    }

    /// Holds where the condition is not later than `value`.
    pub fn lte(self, value: Timestamp) -> (r: Expr)
        ensures
            r@ == comparison(self.name(), ValueType::Time, Test::TimeLe(value@)),
    {
        compare(self.field, ValueType::Time, Operator::TimeLe(value))
    }

}

/// An integer comparison of a condition that is joined as an integer
/// compiles to one clause with one question mark, which binds the number
/// compared with. Where the condition is joined under another type, the
/// comparison is a mismatch.
pub proof fn lemma_int_equals_compiles(name: Seq<char>, alias: Seq<char>, actual: ValueType, value: i64)
    ensures
        compile(
            comparison(name, ValueType::Int, Test::IntEquals(value)),
            seq![Alias { name, alias, value_type: actual }],
        ) == (if actual == ValueType::Int {
            Compiled::Sql {
                text: binary_sql(alias, "int_value"@, "="@),
                params: seq![SqlDatum::Integer(value)],
            }
        } else {
            Compiled::Fault(Fault::Mismatch { name, expected: ValueType::Int, actual })
        }),
{
    let table = seq![Alias { name, alias, value_type: actual }];
    assert(alias_names(table) =~= seq![name]);
    assert(alias_names(table).drop_last() =~= Seq::<Seq<char>>::empty());
    assert(alias_index(table, name) == 0);
}

} // verus!
