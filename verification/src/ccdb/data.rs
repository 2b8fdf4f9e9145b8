//! Decoded payloads: typed columns with row, column and cell access.

use vstd::prelude::*;
use vstd::arithmetic::div_mod::lemma_fundamental_div_mod_converse;
use crate::ccdb::models::{ColumnMeta, ColumnType};
use crate::numbers::{decimal, decimal_chars, is_float_literal, is_float_text, parse_int_in, read_int};
use crate::sorting::{order_by_key, ordered_indices};
use crate::text::{chars_of, last_index_of, lemma_last_index_of, replace, replace_chars, same_chars, split, split_chars, string_of, string_views, views};

verus! {

/// One decoded cell, as a mathematical value. A `Double` cell is held by
/// its text, which is a floating-point literal.
pub enum Cell {
    Int(i32),
    UInt(u32),
    Long(i64),
    ULong(u64),
    Double(Seq<char>),
    Bool(bool),
    String(Seq<char>),
}

impl Cell {
    /// The column type that the cell belongs to.
    pub open spec fn kind(self) -> ColumnType {
        match self {
            Cell::Int(_) => ColumnType::Int,
            Cell::UInt(_) => ColumnType::UInt,
            Cell::Long(_) => ColumnType::Long,
            Cell::ULong(_) => ColumnType::ULong,
            Cell::Double(_) => ColumnType::Double,
            Cell::Bool(_) => ColumnType::Bool,
            Cell::String(_) => ColumnType::String,
        }
    }
}

/// The cells of one column, all of one type. The cells of a `Double`
/// column are kept as the floating-point literals that the vault holds.
#[derive(Debug, Clone)]
pub enum Column {
    Int(Vec<i32>),
    UInt(Vec<u32>),
    Long(Vec<i64>),
    ULong(Vec<u64>),
    Double(Vec<String>),
    Bool(Vec<bool>),
    String(Vec<String>),
}

impl View for Column {
    type V = Seq<Cell>;

    open spec fn view(&self) -> Seq<Cell> {
        match *self {
            Column::Int(v) => Seq::new(v@.len(), |i: int| Cell::Int(v@[i])),
            Column::UInt(v) => Seq::new(v@.len(), |i: int| Cell::UInt(v@[i])),
            Column::Long(v) => Seq::new(v@.len(), |i: int| Cell::Long(v@[i])),
            Column::ULong(v) => Seq::new(v@.len(), |i: int| Cell::ULong(v@[i])),
            Column::Double(v) => Seq::new(v@.len(), |i: int| Cell::Double(v@[i]@)),
            Column::Bool(v) => Seq::new(v@.len(), |i: int| Cell::Bool(v@[i])),
            Column::String(v) => Seq::new(v@.len(), |i: int| Cell::String(v@[i]@)),
        }
    }
}

impl Column {
    /// The type of the column's cells.
    pub open spec fn kind(self) -> ColumnType {
        match self {
            Column::Int(_) => ColumnType::Int,
            Column::UInt(_) => ColumnType::UInt,
            Column::Long(_) => ColumnType::Long,
            Column::ULong(_) => ColumnType::ULong,
            Column::Double(_) => ColumnType::Double,
            Column::Bool(_) => ColumnType::Bool,
            Column::String(_) => ColumnType::String,
        }
    }

    /// An empty column of the given type.
    pub fn empty(kind: ColumnType) -> (c: Column)
        ensures
            c.kind() == kind,
            c@.len() == 0,
    {
        match kind {
            ColumnType::Int => Column::Int(Vec::new()),
            ColumnType::UInt => Column::UInt(Vec::new()),
            ColumnType::Long => Column::Long(Vec::new()),
            ColumnType::ULong => Column::ULong(Vec::new()),
            ColumnType::Double => Column::Double(Vec::new()),
            ColumnType::Bool => Column::Bool(Vec::new()),
            ColumnType::String => Column::String(Vec::new()),
        }
    }

    pub fn len(&self) -> (n: usize)
        ensures
            n == self@.len(),
    {
        match self {
            Column::Int(v) => v.len(),
            Column::UInt(v) => v.len(),
            Column::Long(v) => v.len(),
            Column::ULong(v) => v.len(),
            Column::Double(v) => v.len(),
            Column::Bool(v) => v.len(),
            Column::String(v) => v.len(),
        }
    }

    /// The cell in row `row`.
    pub fn row(&self, row: usize) -> (v: Value<'_>)
        requires
            row < self@.len(),
        ensures
            v@ == self@[row as int],
            v@.kind() == self.kind(),
    {
        match self {
            Column::Int(v) => Value::Int(&v[row]),
            Column::UInt(v) => Value::UInt(&v[row]),
            Column::Long(v) => Value::Long(&v[row]),
            Column::ULong(v) => Value::ULong(&v[row]),
            Column::Double(v) => Value::Double(v[row].as_str()),
            Column::Bool(v) => Value::Bool(&v[row]),
            Column::String(v) => Value::String(v[row].as_str()),
        }
    }
}

/// One cell, borrowed from its column. A `Double` cell is the
/// floating-point literal as the vault holds it.
#[derive(Debug, Copy, Clone)]
pub enum Value<'a> {
    Int(&'a i32),
    UInt(&'a u32),
    Long(&'a i64),
    ULong(&'a u64),
    Double(&'a str),
    Bool(&'a bool),
    String(&'a str),
}

impl<'a> View for Value<'a> {
    type V = Cell;

    open spec fn view(&self) -> Cell {
        match *self {
            Value::Int(v) => Cell::Int(*v),
            Value::UInt(v) => Cell::UInt(*v),
            Value::Long(v) => Cell::Long(*v),
            Value::ULong(v) => Cell::ULong(*v),
            Value::Double(v) => Cell::Double(v@),
            Value::Bool(v) => Cell::Bool(*v),
            Value::String(v) => Cell::String(v@),
        }
    }
}

impl<'a> Value<'a> {
    pub fn as_int(self) -> (r: Option<i32>)
        ensures
            r == match self@ {
                Cell::Int(v) => Some(v),
                _ => None,
            },
    {
        if let Value::Int(v) = self {
            Some(*v)
        } else {
            None
        }
    }

    pub fn as_uint(self) -> (r: Option<u32>)
        ensures
            r == match self@ {
                Cell::UInt(v) => Some(v),
                _ => None,
            },
    {
        if let Value::UInt(v) = self {
            Some(*v)
        } else {
            None
        }
    }

    pub fn as_long(self) -> (r: Option<i64>)
        ensures
            r == match self@ {
                Cell::Long(v) => Some(v),
                _ => None,
            },
    {
        if let Value::Long(v) = self {
            Some(*v)
        } else {
            None
        }
    }

    pub fn as_ulong(self) -> (r: Option<u64>)
        ensures
            r == match self@ {
                Cell::ULong(v) => Some(v),
                _ => None,
            },
    {
        if let Value::ULong(v) = self {
            Some(*v)
        } else {
            None
        }
    }

    pub fn as_double(self) -> (r: Option<&'a str>)
        ensures
            match self@ {
                Cell::Double(v) => r matches Some(s) && s@ == v,
                _ => r is None,
            },
    {
        if let Value::Double(v) = self {
            Some(v)
        } else {
            None
        }
    }

    pub fn as_bool(self) -> (r: Option<bool>)
        ensures
            r == match self@ {
                Cell::Bool(v) => Some(v),
                _ => None,
            },
    {
        if let Value::Bool(v) = self {
            Some(*v)
        } else {
            None
        }
    }

    pub fn as_str(self) -> (r: Option<&'a str>)
        ensures
            match self@ {
                Cell::String(v) => r matches Some(s) && s@ == v,
                _ => r is None,
            },
    {
        if let Value::String(v) = self {
            Some(v)
        } else {
            None
        }
    }

}

/// The names and values of one row, in column order.
pub struct RowView<'a> {
    pub values: Vec<(&'a str, Value<'a>)>,
}

impl<'a> RowView<'a> {
    /// The column names of the row, in order.
    pub open spec fn names(&self) -> Seq<Seq<char>> {
        Seq::new(self.values@.len(), |i: int| self.values@[i].0@)
    }

    /// The cell under `name`; where several columns bear the name, that of
    /// the last.
    pub open spec fn cell(&self, name: Seq<char>) -> Option<Cell> {
        let at = last_index_of(self.names(), name);
        if at >= 0 {
            Some(self.values@[at].1@)
        } else {
            None
        }
    }

    pub fn get(&self, name: &str) -> (r: Option<Value<'a>>)
        ensures
            match self.cell(name@) {
                Some(c) => r matches Some(v) && v@ == c,
                None => r is None,
            },
    {
        let wanted = chars_of(name);
        let mut i: usize = self.values.len();
        let ghost names = self.names();
        assert(names.take(names.len() as int) == names);
        while i > 0
            invariant
                0 <= i <= self.values.len(),
                names == self.names(),
                wanted@ == name@,
                last_index_of(names, name@) == last_index_of(names.take(i as int), name@),
            decreases i,
        {
            let here = chars_of(self.values[i - 1].0);
            proof {
                assert(names.take(i as int).last() == names[i - 1]);
                assert(names.take(i as int).drop_last() == names.take(i - 1));
            }
            if same_chars(&here, &wanted) {
                return Some(self.values[i - 1].1);
            }
            i -= 1;
        }
        None
    }

    pub fn get_int(&self, name: &str) -> (r: Option<i32>)
        ensures
            r == match self.cell(name@) {
                Some(Cell::Int(v)) => Some(v),
                _ => None,
            },
    {
        match self.get(name) {
            Some(v) => v.as_int(),
            None => None,
        }
    }

    pub fn get_uint(&self, name: &str) -> (r: Option<u32>)
        ensures
            r == match self.cell(name@) {
                Some(Cell::UInt(v)) => Some(v),
                _ => None,
            },
    {
        match self.get(name) {
            Some(v) => v.as_uint(),
            None => None,
        }
    }

    pub fn get_long(&self, name: &str) -> (r: Option<i64>)
        ensures
            r == match self.cell(name@) {
                Some(Cell::Long(v)) => Some(v),
                _ => None,
            },
    {
        match self.get(name) {
            Some(v) => v.as_long(),
            None => None,
        }
    }

    pub fn get_ulong(&self, name: &str) -> (r: Option<u64>)
        ensures
            r == match self.cell(name@) {
                Some(Cell::ULong(v)) => Some(v),
                _ => None,
            },
    {
        match self.get(name) {
            Some(v) => v.as_ulong(),
            None => None,
        }
    }

    pub fn get_double(&self, name: &str) -> (r: Option<&'a str>)
        ensures
            match self.cell(name@) {
                Some(Cell::Double(v)) => r matches Some(s) && s@ == v,
                _ => r is None,
            },
    {
        match self.get(name) {
            Some(v) => v.as_double(),
            None => None,
        }
    }

    pub fn get_bool(&self, name: &str) -> (r: Option<bool>)
        ensures
            r == match self.cell(name@) {
                Some(Cell::Bool(v)) => Some(v),
                _ => None,
            },
    {
        match self.get(name) {
            Some(v) => v.as_bool(),
            None => None,
        }
    }

    pub fn get_string(&self, name: &str) -> (r: Option<&'a str>)
        ensures
            match self.cell(name@) {
                Some(Cell::String(v)) => r matches Some(s) && s@ == v,
                _ => r is None,
            },
    {
        match self.get(name) {
            Some(v) => v.as_str(),
            None => None,
        }
    }

}

/// A column as a table's schema describes it.
#[derive(Debug, Clone)]
pub struct ColumnDef {
    pub index: usize,
    pub name: String,
    pub column_type: ColumnType,
}

/// Why a payload could not be decoded or read.
#[derive(Debug, Clone)]
pub enum CCDBDataError {
    /// The vault holds `found` cells where rows times columns is `expected`.
    ColumnCountMismatch { expected: usize, found: usize },
    /// The cell in row `row` and column `column` is no value of its type.
    ParseError { column: usize, row: usize, column_type: ColumnType, text: String },
    /// Row `requested` was asked of a payload with `nrows` rows.
    RowOutOfBounds { requested: usize, nrows: usize },
}

/// A decoded payload as a mathematical value: `columns[c][r]` is the cell in
/// row `r` of column `c`.
pub struct Table {
    pub nrows: nat,
    pub names: Seq<Seq<char>>,
    pub types: Seq<ColumnType>,
    pub columns: Seq<Seq<Cell>>,
}

impl Table {
    pub open spec fn ncolumns(self) -> nat {
        self.types.len()
    }

    /// Every column has a name, a type and `nrows` cells of that type.
    pub open spec fn well_formed(self) -> bool {
        &&& self.names.len() == self.types.len()
        &&& self.columns.len() == self.types.len()
        &&& forall|c: int|
            0 <= c < self.columns.len() ==> (#[trigger] self.columns[c]).len() == self.nrows
        &&& forall|c: int, r: int|
            0 <= c < self.columns.len() && 0 <= r < self.nrows ==> (#[trigger] self.columns[c][r]).kind()
                == self.types[c]
    }

    /// The column that `name` refers to: the last one that bears it.
    pub open spec fn column_named(self, name: Seq<char>) -> int {
        last_index_of(self.names, name)
    }
}

/// A decoded payload: `nrows` rows of typed cells, stored by column.
pub struct Data {
    nrows: usize,
    ncolumns: usize,
    column_names: Vec<String>,
    column_types: Vec<ColumnType>,
    columns: Vec<Column>,
}

impl View for Data {
    type V = Table;

    closed spec fn view(&self) -> Table {
        Table {
            nrows: self.nrows as nat,
            names: string_views(self.column_names@),
            types: self.column_types@,
            columns: Seq::new(self.columns@.len(), |c: int| self.columns@[c]@),
        }
    }
}

/// The truth value of a `bool` cell: `true` and `false` are themselves; any
/// other text is true where it writes a 32-bit integer other than zero.
pub open spec fn bool_of(raw: Seq<char>) -> bool {
    if raw == "true"@ {
        true
    } else if raw == "false"@ {
        false
    } else {
        match parse_int_in(raw, i32::MIN as int, i32::MAX as int) {
            Some(v) => v != 0,
            None => false,
        }
    }
}

/// The text of a `string` cell: every escape `&delimeter` stands for the
/// delimiter `|`.
pub open spec fn unescaped(raw: Seq<char>) -> Seq<char> {
    replace(raw, "&delimeter"@, "|"@)
}

/// The cell that the text `raw` stands for in a column of type `kind`, or
/// `None` where it is no value of that type.
pub open spec fn decode_cell(kind: ColumnType, raw: Seq<char>) -> Option<Cell> {
    match kind {
        ColumnType::Int => match parse_int_in(raw, i32::MIN as int, i32::MAX as int) {
            Some(v) => Some(Cell::Int(v as i32)),
            None => None,
        },
        ColumnType::UInt => match parse_int_in(raw, 0, u32::MAX as int) {
            Some(v) => Some(Cell::UInt(v as u32)),
            None => None,
        },
        ColumnType::Long => match parse_int_in(raw, i64::MIN as int, i64::MAX as int) {
            Some(v) => Some(Cell::Long(v as i64)),
            None => None,
        },
        ColumnType::ULong => match parse_int_in(raw, 0, u64::MAX as int) {
            Some(v) => Some(Cell::ULong(v as u64)),
            None => None,
        },
        ColumnType::Double => if is_float_text(raw) {
            Some(Cell::Double(raw))
        } else {
            None
        },
        ColumnType::Bool => Some(Cell::Bool(bool_of(raw))),
        ColumnType::String => Some(Cell::String(unescaped(raw))),
    }
}

/// A decoded cell has the type of its column.
pub proof fn lemma_decode_cell_kind(kind: ColumnType, raw: Seq<char>)
    ensures
        decode_cell(kind, raw) matches Some(c) ==> c.kind() == kind,
{
}

/// Reads a `bool` cell.
pub fn parse_bool(s: &str) -> (b: bool)
    ensures
        b == bool_of(s@),
{
    let chars = chars_of(s);
    read_bool(&chars)
}

fn read_bool(s: &Vec<char>) -> (b: bool)
    ensures
        b == bool_of(s@),
{
    let yes = chars_of("true");
    let no = chars_of("false");
    if same_chars(s, &yes) {
        return true;
    }
    if same_chars(s, &no) {
        return false;
    }
    match read_int(s, -0x8000_0000, 0x7fff_ffff) {
        Some(v) => v != 0,
        None => false,
    }
}

/// Decodes `raw` and appends the cell to column `at`. Returns whether
/// `raw` is a value of the column's type; if not, nothing changes.
fn push_cell(columns: &mut Vec<Column>, at: usize, raw: &Vec<char>) -> (ok: bool)
    requires
        at < old(columns)@.len(),
    ensures
        final(columns)@.len() == old(columns)@.len(),
        forall|c: int|
            0 <= c < old(columns)@.len() ==> (#[trigger] final(columns)@[c]).kind() == old(
                columns,
            )@[c].kind(),
        forall|c: int|
            0 <= c < old(columns)@.len() && c != at ==> (#[trigger] final(columns)@[c])@ == old(
                columns,
            )@[c]@,
        ok == decode_cell(old(columns)@[at as int].kind(), raw@) is Some,
        ok ==> final(columns)@[at as int]@ == old(columns)@[at as int]@.push(
            decode_cell(old(columns)@[at as int].kind(), raw@).unwrap(),
        ),
        !ok ==> final(columns)@[at as int]@ == old(columns)@[at as int]@,
{
    let ghost before = columns@[at as int]@;
    let mut ok = true;
    match &mut columns[at] {
        Column::Int(v) => {
            match read_int(raw, -0x8000_0000, 0x7fff_ffff) {
                Some(x) => {
                    v.push(x as i32);
                },
                None => {
                    ok = false;
                },
            }
        },
        Column::UInt(v) => {
            match read_int(raw, 0, 0xffff_ffff) {
                Some(x) => {
                    v.push(x as u32);
                },
                None => {
                    ok = false;
                },
            }
        },
        Column::Long(v) => {
            match read_int(raw, -0x8000_0000_0000_0000, 0x7fff_ffff_ffff_ffff) {
                Some(x) => {
                    v.push(x as i64);
                },
                None => {
                    ok = false;
                },
            }
        },
        Column::ULong(v) => {
            match read_int(raw, 0, 0xffff_ffff_ffff_ffff) {
                Some(x) => {
                    v.push(x as u64);
                },
                None => {
                    ok = false;
                },
            }
        },
        Column::Double(v) => {
            if is_float_literal(raw) {
                v.push(string_of(raw));
            } else {
                ok = false;
            }
        },
        Column::Bool(v) => {
            v.push(read_bool(raw));
        },
        Column::String(v) => {
            let escape = chars_of("&delimeter");
            let delimiter = chars_of("|");
            let text = replace_chars(raw, &escape, &delimiter);
            v.push(string_of(&text));
        },
    }
    proof {
        if ok {
            assert(columns@[at as int]@ =~= before.push(
                decode_cell(old(columns)@[at as int].kind(), raw@).unwrap(),
            ));
        } else {
            assert(columns@[at as int]@ =~= before);
        }
    }
    ok
}


/// The `order` of each column.
pub open spec fn column_orders(columns: Seq<ColumnMeta>) -> Seq<i64> {
    Seq::new(columns.len(), |i: int| columns[i].order)
}

/// The places of the columns in the order in which a payload presents
/// them: by ascending `order`.
pub open spec fn schema_order(columns: Seq<ColumnMeta>) -> Seq<usize> {
    order_by_key(column_orders(columns), columns.len())
}

/// The column types in presentation order.
pub open spec fn schema_types(columns: Seq<ColumnMeta>) -> Seq<ColumnType> {
    Seq::new(columns.len(), |j: int| columns[schema_order(columns)[j] as int].column_type)
}

/// The column names in presentation order; a column without a name is
/// called by its place, written in decimal.
pub open spec fn schema_names(columns: Seq<ColumnMeta>) -> Seq<Seq<char>> {
    Seq::new(
        columns.len(),
        |j: int|
            {
                let name = columns[schema_order(columns)[j] as int].name@;
                if name.len() == 0 {
                    decimal(j as nat)
                } else {
                    name
                }
            },
    )
}

/// The place of the first of the cells below `limit` that is no value of
/// its column's type, cell `k` belonging to column `k % types.len()`; or
/// `limit` if there is none.
pub open spec fn first_bad_cell(cells: Seq<Seq<char>>, types: Seq<ColumnType>, limit: nat) -> nat
    decreases limit,
{
    if limit == 0 {
        0
    } else {
        let before = first_bad_cell(cells, types, (limit - 1) as nat);
        if before < limit - 1 {
            before
        } else if decode_cell(types[(limit - 1) % (types.len() as int)], cells[limit - 1]) is None {
            (limit - 1) as nat
        } else {
            limit
        }
    }
}

/// The first bad cell is never beyond the limit, and once one is found,
/// looking further does not change it.
pub proof fn lemma_first_bad_cell_stays(
    cells: Seq<Seq<char>>,
    types: Seq<ColumnType>,
    found: nat,
    limit: nat,
)
    requires
        first_bad_cell(cells, types, found) < found,
        found <= limit,
    ensures
        first_bad_cell(cells, types, limit) == first_bad_cell(cells, types, found),
    decreases limit,
{
    if found < limit {
        lemma_first_bad_cell_stays(cells, types, found, (limit - 1) as nat);
    }
}

/// Where every cell below `limit` is a value of its column's type, there is
/// no bad cell.
pub proof fn lemma_no_bad_cell(cells: Seq<Seq<char>>, types: Seq<ColumnType>, limit: nat)
    requires
        forall|k: int|
            0 <= k < limit ==> decode_cell(types[k % (types.len() as int)], #[trigger] cells[k])
                is Some,
    ensures
        first_bad_cell(cells, types, limit) == limit,
    decreases limit,
{
    if limit > 0 {
        lemma_no_bad_cell(cells, types, (limit - 1) as nat);
        assert(decode_cell(types[(limit - 1) % (types.len() as int)], cells[limit - 1]) is Some);
    }
}

/// Whether `r` is what decoding `vault` with the given columns and row
/// count must return.
///
/// The vault is cut at every `|`. Cell `k` belongs to row `k / m` and column
/// `k % m`, `m` being the number of columns. The first cell that is no value
/// of its column's type is reported; failing that, a number of cells other
/// than rows times columns; otherwise the table holds every cell decoded.
pub open spec fn is_decoding_of(
    r: Result<Data, CCDBDataError>,
    vault: Seq<char>,
    columns: Seq<ColumnMeta>,
    nrows: nat,
) -> bool {
    let cells = split(vault, '|');
    let types = schema_types(columns);
    let m = columns.len();
    let expected = nrows * m;
    let limit = if cells.len() < expected {
        cells.len()
    } else {
        expected
    };
    let bad = first_bad_cell(cells, types, limit);
    if bad < limit {
        &&& r matches Err(CCDBDataError::ParseError { column, row, column_type, text })
        &&& column == bad % m
        &&& row == bad / m
        &&& column_type == types[(bad % m) as int]
        &&& text@ == cells[bad as int]
    } else if cells.len() != expected {
        &&& r matches Err(CCDBDataError::ColumnCountMismatch { expected: wanted, found })
        &&& wanted == expected
        &&& found == cells.len()
    } else {
        &&& r matches Ok(d)
        &&& d@.well_formed()
        &&& d@.nrows == nrows
        &&& d@.names == schema_names(columns)
        &&& d@.types == types
        &&& forall|row: int, c: int|
            0 <= row < nrows && 0 <= c < m ==> decode_cell(types[c], cells[row * m + c]) == Some(
                #[trigger] d@.columns[c][row],
            )
    }
}

/// A vault that holds exactly rows times columns cells, each a value of its
/// column's type, decodes to a table of that many rows and columns in which
/// every cell has the type of its column.
pub proof fn lemma_well_formed_vault_decodes(
    r: Result<Data, CCDBDataError>,
    vault: Seq<char>,
    columns: Seq<ColumnMeta>,
    nrows: nat,
)
    requires
        is_decoding_of(r, vault, columns, nrows),
        split(vault, '|').len() == nrows * columns.len(),
        forall|k: int|
            0 <= k < nrows * columns.len() ==> decode_cell(
                schema_types(columns)[k % (columns.len() as int)],
                #[trigger] split(vault, '|')[k],
            ) is Some,
    ensures
        r is Ok,
        r->Ok_0@.nrows == nrows,
        r->Ok_0@.ncolumns() == columns.len(),
        forall|row: int, c: int|
            0 <= row < nrows && 0 <= c < columns.len() ==> (#[trigger] r->Ok_0@.columns[c][row]).kind()
                == schema_types(columns)[c],
{
    lemma_no_bad_cell(split(vault, '|'), schema_types(columns), nrows * columns.len());
}

fn find_last(names: &Vec<String>, name: &str) -> (r: Option<usize>)
    ensures
        match r {
            Some(at) => at == last_index_of(string_views(names@), name@),
            None => last_index_of(string_views(names@), name@) == -1,
        },
{
    let wanted = chars_of(name);
    let mut i: usize = names.len();
    let ghost all = string_views(names@);
    assert(all.take(all.len() as int) == all);
    while i > 0
        invariant
            0 <= i <= names.len(),
            all == string_views(names@),
            wanted@ == name@,
            last_index_of(all, name@) == last_index_of(all.take(i as int), name@),
        decreases i,
    {
        let here = chars_of(names[i - 1].as_str());
        proof {
            assert(all.take(i as int).last() == all[i - 1]);
            assert(all.take(i as int).drop_last() == all.take(i - 1));
        }
        if same_chars(&here, &wanted) {
            return Some(i - 1);
        }
        i -= 1;
    }
    None
}

impl Data {
    #[verifier::type_invariant]
    spec fn consistent(self) -> bool {
        &&& self.ncolumns == self.columns@.len()
        &&& self.column_names@.len() == self.ncolumns
        &&& self.column_types@.len() == self.ncolumns
        &&& forall|c: int|
            0 <= c < self.columns@.len() ==> (#[trigger] self.columns@[c]).kind()
                == self.column_types@[c]
        &&& forall|c: int|
            0 <= c < self.columns@.len() ==> (#[trigger] self.columns@[c])@.len() == self.nrows
    }

    proof fn lemma_consistent_is_well_formed(self)
        requires
            self.consistent(),
        ensures
            self@.well_formed(),
            self@.ncolumns() == self.ncolumns,
    {
        assert forall|c: int, r: int|
            0 <= c < self@.columns.len() && 0 <= r < self@.nrows implies (
        #[trigger] self@.columns[c][r]).kind() == self@.types[c] by {
            assert(self@.columns[c] == self.columns@[c]@);
            assert(self.columns@[c].kind() == self.column_types@[c]);
        }
    }

    /// Decodes a vault: the cells of a payload, row by row, with `|` between
    /// them.
    pub fn from_vault(vault: &str, columns: &[ColumnMeta], nrows: usize) -> (r: Result<
        Data,
        CCDBDataError,
    >)
        requires
            nrows * columns@.len() <= usize::MAX,
        ensures
            is_decoding_of(r, vault@, columns@, nrows as nat),
    {
        let m = columns.len();
        let expected = nrows * m;
        let mut keys: Vec<i64> = Vec::new();
        let mut i: usize = 0;
        while i < m
            invariant
                i <= m,
                m == columns@.len(),
                keys@ == column_orders(columns@).take(i as int),
            decreases m - i,
        {
            keys.push(columns[i].order);
            assert(keys@ == column_orders(columns@).take(i + 1));
            i += 1;
        }
        assert(keys@ == column_orders(columns@));
        let perm = ordered_indices(&keys);
        let mut types: Vec<ColumnType> = Vec::new();
        let mut names: Vec<String> = Vec::new();
        let mut cols: Vec<Column> = Vec::new();
        let mut j: usize = 0;
        while j < m
            invariant
                j <= m,
                m == columns@.len(),
                perm@ == schema_order(columns@),
                perm@.len() == m,
                forall|k: int| 0 <= k < perm@.len() ==> (#[trigger] perm@[k]) < m,
                types@ == schema_types(columns@).take(j as int),
                string_views(names@) == schema_names(columns@).take(j as int),
                cols@.len() == j,
                forall|c: int| 0 <= c < j ==> (#[trigger] cols@[c]).kind() == types@[c],
                forall|c: int| 0 <= c < j ==> (#[trigger] cols@[c])@.len() == 0,
            decreases m - j,
        {
            let column = &columns[perm[j]];
            let ghost old_names = string_views(names@);
            types.push(column.column_type);
            if column.name.as_str().is_empty() {
                let numeral = decimal_chars(j as u64);
                names.push(string_of(&numeral));
            } else {
                names.push(column.name.clone());
            }
            cols.push(Column::empty(column.column_type));
            proof {
                assert(types@ == schema_types(columns@).take(j + 1));
                assert(string_views(names@) == old_names.push(names@[j as int]@));
                assert(string_views(names@) == schema_names(columns@).take(j + 1));
            }
            j += 1;
        }
        assert(types@ == schema_types(columns@));
        assert(string_views(names@) == schema_names(columns@));
        let text = chars_of(vault);
        let cells = split_chars(&text, '|');
        let ghost raw = split(vault@, '|');
        assert(raw.len() == cells@.len());
        if m == 0 {
            return Err(CCDBDataError::ColumnCountMismatch { expected, found: cells.len() });
        }
        let mut idx: usize = 0;
        let mut row: usize = 0;
        let mut col: usize = 0;
        while idx < expected
            invariant
                m > 0,
                m == columns@.len(),
                expected == nrows * m,
                types@ == schema_types(columns@),
                types@.len() == m,
                cols@.len() == m,
                views(cells@) == raw,
                raw == split(vault@, '|'),
                raw.len() == cells@.len(),
                idx == row * m + col,
                col < m,
                idx <= expected,
                idx <= cells@.len(),
                first_bad_cell(raw, types@, idx as nat) == idx,
                forall|c: int| 0 <= c < m ==> (#[trigger] cols@[c]).kind() == types@[c],
                forall|c: int|
                    0 <= c < m ==> (#[trigger] cols@[c])@.len() == row + (if c < col {
                        1int
                    } else {
                        0int
                    }),
                forall|c: int, r: int|
                    0 <= c < m && 0 <= r < cols@[c]@.len() ==> decode_cell(
                        types@[c],
                        raw[r * m + c],
                    ) == Some(#[trigger] cols@[c]@[r]),
            decreases expected - idx,
        {
            if idx >= cells.len() {
                return Err(CCDBDataError::ColumnCountMismatch { expected, found: cells.len() });
            }
            proof {
                lemma_fundamental_div_mod_converse(idx as int, m as int, row as int, col as int);
                assert(raw[idx as int] == cells@[idx as int]@);
            }
            let ghost before = cols@;
            let ok = push_cell(&mut cols, col, &cells[idx]);
            if !ok {
                proof {
                    let limit: nat = if raw.len() < expected {
                        raw.len()
                    } else {
                        expected as nat
                    };
                    assert(first_bad_cell(raw, types@, (idx + 1) as nat) == idx);
                    lemma_first_bad_cell_stays(raw, types@, (idx + 1) as nat, limit);
                }
                return Err(
                    CCDBDataError::ParseError {
                        column: col,
                        row,
                        column_type: types[col],
                        text: string_of(&cells[idx]),
                    },
                );
            }
            proof {
                assert forall|c: int, r: int|
                    0 <= c < m && 0 <= r < cols@[c]@.len() implies decode_cell(
                    types@[c],
                    raw[r * m + c],
                ) == Some(#[trigger] cols@[c]@[r]) by {
                    if c == col {
                        if r < before[c]@.len() {
                            assert(cols@[c]@[r] == before[c]@[r]);
                        }
                    } else {
                        assert(cols@[c]@ == before[c]@);
                    }
                }
                assert((row + 1) * m == row * m + m) by (nonlinear_arith);
            }
            idx += 1;
            col += 1;
            if col == m {
                col = 0;
                row += 1;
            }
        }
        proof {
            assert(row == nrows && col == 0) by (nonlinear_arith)
                requires
                    row * m + col == nrows * m,
                    col < m,
                    m > 0,
            ;
        }
        if cells.len() != expected {
            return Err(CCDBDataError::ColumnCountMismatch { expected, found: cells.len() });
        }
        let data = Data { nrows, ncolumns: m, column_names: names, column_types: types, columns: cols };
        proof {
            data.lemma_consistent_is_well_formed();
            assert forall|r: int, c: int| 0 <= r < nrows && 0 <= c < m implies decode_cell(
                types@[c],
                raw[r * m + c],
            ) == Some(#[trigger] data@.columns[c][r]) by {
                assert(data@.columns[c] == cols@[c]@);
            }
        }
        Ok(data)
    }

    pub fn nrows(&self) -> (n: usize)
        ensures
            n == self@.nrows,
            self@.well_formed(),
    {
        proof {
            use_type_invariant(self);
            self.lemma_consistent_is_well_formed();
        }
        self.nrows
    }

    pub fn ncolumns(&self) -> (n: usize)
        ensures
            n == self@.ncolumns(),
            self@.well_formed(),
    {
        proof {
            use_type_invariant(self);
            self.lemma_consistent_is_well_formed();
        }
        self.ncolumns
    }

    pub fn column_names(&self) -> (names: &[String])
        ensures
            string_views(names@) == self@.names,
    {
        self.column_names.as_slice()
    }

    pub fn column_types(&self) -> (types: &[ColumnType])
        ensures
            types@ == self@.types,
    {
        self.column_types.as_slice()
    }

    pub fn column_by_index(&self, idx: usize) -> (r: Option<&Column>)
        ensures
            self@.well_formed(),
            match r {
                Some(column) => idx < self@.ncolumns() && column@ == self@.columns[idx as int]
                    && column.kind() == self@.types[idx as int],
                None => idx >= self@.ncolumns(),
            },
    {
        proof {
            use_type_invariant(self);
            self.lemma_consistent_is_well_formed();
        }
        if idx < self.columns.len() {
            Some(&self.columns[idx])
        } else {
            None
        }
    }

    /// The column called `name`; where several bear the name, the last.
    pub fn column_by_name(&self, name: &str) -> (r: Option<&Column>)
        ensures
            self@.well_formed(),
            match r {
                Some(column) => self@.column_named(name@) >= 0 && column@
                    == self@.columns[self@.column_named(name@)] && column.kind()
                    == self@.types[self@.column_named(name@)],
                None => self@.column_named(name@) == -1,
            },
    {
        proof {
            use_type_invariant(self);
            self.lemma_consistent_is_well_formed();
        }
        match find_last(&self.column_names, name) {
            Some(at) => {
                proof {
                    lemma_last_index_of(self@.names, name@);
                }
                Some(&self.columns[at])
            },
            None => None,
        }
    }

    /// The cell in row `row` of column `column`, if the table has it.
    pub fn value(&self, row: usize, column: usize) -> (r: Option<Value<'_>>)
        ensures
            self@.well_formed(),
            match r {
                Some(v) => row < self@.nrows && column < self@.ncolumns() && v@
                    == self@.columns[column as int][row as int] && v@.kind()
                    == self@.types[column as int],
                None => row >= self@.nrows || column >= self@.ncolumns(),
            },
    {
        proof {
            use_type_invariant(self);
            self.lemma_consistent_is_well_formed();
        }
        if row >= self.nrows || column >= self.ncolumns {
            return None;
        }
        Some(self.columns[column].row(row))
    }

    /// The `int` cell in row `row` of the column called `name`.
    pub fn get_named_int(&self, name: &str, row: usize) -> (r: Option<i32>)
        requires
            self@.column_named(name@) >= 0 ==> row < self@.nrows,
        ensures
            match r {
                Some(v) => self@.column_named(name@) >= 0 && self@.columns[self@.column_named(
                    name@,
                )][row as int] == Cell::Int(v),
                None => self@.column_named(name@) == -1 || self@.types[self@.column_named(name@)]
                    != ColumnType::Int,
            },
    {
        proof {
            use_type_invariant(self);
            self.lemma_consistent_is_well_formed();
            lemma_last_index_of(self@.names, name@);
        }
        match self.column_by_name(name) {
            Some(column) => column.row(row).as_int(),
            None => None,
        }
    }

    /// The `uint` cell in row `row` of the column called `name`.
    pub fn get_named_uint(&self, name: &str, row: usize) -> (r: Option<u32>)
        requires
            self@.column_named(name@) >= 0 ==> row < self@.nrows,
        ensures
            match r {
                Some(v) => self@.column_named(name@) >= 0 && self@.columns[self@.column_named(
                    name@,
                )][row as int] == Cell::UInt(v),
                None => self@.column_named(name@) == -1 || self@.types[self@.column_named(name@)]
                    != ColumnType::UInt,
            },
    {
        proof {
            use_type_invariant(self);
            self.lemma_consistent_is_well_formed();
            lemma_last_index_of(self@.names, name@);
        }
        match self.column_by_name(name) {
            Some(column) => column.row(row).as_uint(),
            None => None,
        }
    }

    /// The `long` cell in row `row` of the column called `name`.
    pub fn get_named_long(&self, name: &str, row: usize) -> (r: Option<i64>)
        requires
            self@.column_named(name@) >= 0 ==> row < self@.nrows,
        ensures
            match r {
                Some(v) => self@.column_named(name@) >= 0 && self@.columns[self@.column_named(
                    name@,
                )][row as int] == Cell::Long(v),
                None => self@.column_named(name@) == -1 || self@.types[self@.column_named(name@)]
                    != ColumnType::Long,
            },
    {
        proof {
            use_type_invariant(self);
            self.lemma_consistent_is_well_formed();
            lemma_last_index_of(self@.names, name@);
        }
        match self.column_by_name(name) {
            Some(column) => column.row(row).as_long(),
            None => None,
        }
    }

    /// The `ulong` cell in row `row` of the column called `name`.
    pub fn get_named_ulong(&self, name: &str, row: usize) -> (r: Option<u64>)
        requires
            self@.column_named(name@) >= 0 ==> row < self@.nrows,
        ensures
            match r {
                Some(v) => self@.column_named(name@) >= 0 && self@.columns[self@.column_named(
                    name@,
                )][row as int] == Cell::ULong(v),
                None => self@.column_named(name@) == -1 || self@.types[self@.column_named(name@)]
                    != ColumnType::ULong,
            },
    {
        proof {
            use_type_invariant(self);
            self.lemma_consistent_is_well_formed();
            lemma_last_index_of(self@.names, name@);
        }
        match self.column_by_name(name) {
            Some(column) => column.row(row).as_ulong(),
            None => None,
        }
    }

    /// The `double` cell in row `row` of the column called `name`.
    pub fn get_named_double(&self, name: &str, row: usize) -> (r: Option<&str>)
        requires
            self@.column_named(name@) >= 0 ==> row < self@.nrows,
        ensures
            match r {
                Some(s) => self@.column_named(name@) >= 0 && self@.columns[self@.column_named(
                    name@,
                )][row as int] == Cell::Double(s@),
                None => self@.column_named(name@) == -1 || self@.types[self@.column_named(name@)]
                    != ColumnType::Double,
            },
    {
        proof {
            use_type_invariant(self);
            self.lemma_consistent_is_well_formed();
            lemma_last_index_of(self@.names, name@);
        }
        match self.column_by_name(name) {
            Some(column) => column.row(row).as_double(),
            None => None,
        }
    }

    /// The `bool` cell in row `row` of the column called `name`.
    pub fn get_named_bool(&self, name: &str, row: usize) -> (r: Option<bool>)
        requires
            self@.column_named(name@) >= 0 ==> row < self@.nrows,
        ensures
            match r {
                Some(v) => self@.column_named(name@) >= 0 && self@.columns[self@.column_named(
                    name@,
                )][row as int] == Cell::Bool(v),
                None => self@.column_named(name@) == -1 || self@.types[self@.column_named(name@)]
                    != ColumnType::Bool,
            },
    {
        proof {
            use_type_invariant(self);
            self.lemma_consistent_is_well_formed();
            lemma_last_index_of(self@.names, name@);
        }
        match self.column_by_name(name) {
            Some(column) => column.row(row).as_bool(),
            None => None,
        }
    }

    /// The `string` cell in row `row` of the column called `name`.
    pub fn get_named_string(&self, name: &str, row: usize) -> (r: Option<&str>)
        requires
            self@.column_named(name@) >= 0 ==> row < self@.nrows,
        ensures
            match r {
                Some(s) => self@.column_named(name@) >= 0 && self@.columns[self@.column_named(
                    name@,
                )][row as int] == Cell::String(s@),
                None => self@.column_named(name@) == -1 || self@.types[self@.column_named(name@)]
                    != ColumnType::String,
            },
    {
        proof {
            use_type_invariant(self);
            self.lemma_consistent_is_well_formed();
            lemma_last_index_of(self@.names, name@);
        }
        match self.column_by_name(name) {
            Some(column) => column.row(row).as_str(),
            None => None,
        }
    }

    /// The `int` cell in row `row` of column `column`.
    pub fn get_int(&self, column: usize, row: usize) -> (r: Option<i32>)
        ensures
            match r {
                Some(v) => row < self@.nrows && column < self@.ncolumns()
                    && self@.columns[column as int][row as int] == Cell::Int(v),
                None => row >= self@.nrows || column >= self@.ncolumns() || self@.types[column as int]
                    != ColumnType::Int,
            },
    {
        match self.value(row, column) {
            Some(v) => v.as_int(),
            None => None,
        }
    }

    /// The `uint` cell in row `row` of column `column`.
    pub fn get_uint(&self, column: usize, row: usize) -> (r: Option<u32>)
        ensures
            match r {
                Some(v) => row < self@.nrows && column < self@.ncolumns()
                    && self@.columns[column as int][row as int] == Cell::UInt(v),
                None => row >= self@.nrows || column >= self@.ncolumns() || self@.types[column as int]
                    != ColumnType::UInt,
            },
    {
        match self.value(row, column) {
            Some(v) => v.as_uint(),
            None => None,
        }
    }

    /// The `long` cell in row `row` of column `column`.
    pub fn get_long(&self, column: usize, row: usize) -> (r: Option<i64>)
        ensures
            match r {
                Some(v) => row < self@.nrows && column < self@.ncolumns()
                    && self@.columns[column as int][row as int] == Cell::Long(v),
                None => row >= self@.nrows || column >= self@.ncolumns() || self@.types[column as int]
                    != ColumnType::Long,
            },
    {
        match self.value(row, column) {
            Some(v) => v.as_long(),
            None => None,
        }
    }

    /// The `ulong` cell in row `row` of column `column`.
    pub fn get_ulong(&self, column: usize, row: usize) -> (r: Option<u64>)
        ensures
            match r {
                Some(v) => row < self@.nrows && column < self@.ncolumns()
                    && self@.columns[column as int][row as int] == Cell::ULong(v),
                None => row >= self@.nrows || column >= self@.ncolumns() || self@.types[column as int]
                    != ColumnType::ULong,
            },
    {
        match self.value(row, column) {
            Some(v) => v.as_ulong(),
            None => None,
        }
    }

    /// The `double` cell in row `row` of column `column`.
    pub fn get_double(&self, column: usize, row: usize) -> (r: Option<&str>)
        ensures
            match r {
                Some(s) => row < self@.nrows && column < self@.ncolumns()
                    && self@.columns[column as int][row as int] == Cell::Double(s@),
                None => row >= self@.nrows || column >= self@.ncolumns() || self@.types[column as int]
                    != ColumnType::Double,
            },
    {
        match self.value(row, column) {
            Some(v) => v.as_double(),
            None => None,
        }
    }

    /// The `bool` cell in row `row` of column `column`.
    pub fn get_bool(&self, column: usize, row: usize) -> (r: Option<bool>)
        ensures
            match r {
                Some(v) => row < self@.nrows && column < self@.ncolumns()
                    && self@.columns[column as int][row as int] == Cell::Bool(v),
                None => row >= self@.nrows || column >= self@.ncolumns() || self@.types[column as int]
                    != ColumnType::Bool,
            },
    {
        match self.value(row, column) {
            Some(v) => v.as_bool(),
            None => None,
        }
    }

    /// The `string` cell in row `row` of column `column`.
    pub fn get_string(&self, column: usize, row: usize) -> (r: Option<&str>)
        ensures
            match r {
                Some(s) => row < self@.nrows && column < self@.ncolumns()
                    && self@.columns[column as int][row as int] == Cell::String(s@),
                None => row >= self@.nrows || column >= self@.ncolumns() || self@.types[column as int]
                    != ColumnType::String,
            },
    {
        match self.value(row, column) {
            Some(v) => v.as_str(),
            None => None,
        }
    }

    /// The cells of row `row` with the names of their columns.
    pub fn row(&self, row: usize) -> (r: Result<RowView<'_>, CCDBDataError>)
        ensures
            self@.well_formed(),
            match r {
                Ok(view) => {
                    &&& row < self@.nrows
                    &&& view.names() == self@.names
                    &&& forall|c: int|
                        0 <= c < self@.ncolumns() ==> (#[trigger] view.values@[c]).1@
                            == self@.columns[c][row as int]
                },
                Err(CCDBDataError::RowOutOfBounds { requested, nrows }) => row >= self@.nrows
                    && requested == row && nrows == self@.nrows,
                Err(_) => false,
            },
    {
        proof {
            use_type_invariant(self);
            self.lemma_consistent_is_well_formed();
        }
        if row >= self.nrows {
            return Err(CCDBDataError::RowOutOfBounds { requested: row, nrows: self.nrows });
        }
        let mut values: Vec<(&str, Value<'_>)> = Vec::new();
        let mut c: usize = 0;
        while c < self.ncolumns
            invariant
                c <= self.ncolumns,
                self.consistent(),
                row < self.nrows,
                values@.len() == c,
                forall|k: int| 0 <= k < c ==> (#[trigger] values@[k]).0@ == self.column_names@[k]@,
                forall|k: int| 0 <= k < c ==> (#[trigger] values@[k]).1@ == self.columns@[k]@[row as int],
            decreases self.ncolumns - c,
        {
            values.push((self.column_names[c].as_str(), self.columns[c].row(row)));
            c += 1;
        }
        let view = RowView { values };
        assert(view.names() == self@.names);
        Ok(view)
    }
}

} // verus!
