//! The records of the calibration database, as they are read from its tables.

use vstd::prelude::*;
use crate::text::same_text;
use crate::timestamp::{is_reading_of, parse_timestamp, ParseTimestampError, Timestamp};
use crate::{Id, RunNumber};

verus! {

/// The type of the cells of one column.
#[derive(Debug, Copy, Clone, PartialEq, Eq, Structural, Hash)]
pub enum ColumnType {
    Int,
    UInt,
    Long,
    ULong,
    Double,
    String,
    Bool,
}

impl Default for ColumnType {
    fn default() -> (t: Self)
        ensures
            t == ColumnType::Double,
    {
        ColumnType::Double
    }
}

impl ColumnType {
    /// The name under which the database stores the type.
    pub open spec fn name_text(self) -> Seq<char> {
        match self {
            ColumnType::Int => "int"@,
            ColumnType::UInt => "uint"@,
            ColumnType::Long => "long"@,
            ColumnType::ULong => "ulong"@,
            ColumnType::Double => "double"@,
            ColumnType::Bool => "bool"@,
            ColumnType::String => "string"@,
        }
    }

    /// The type that the database stores under `s`, if any.
    pub open spec fn named(s: Seq<char>) -> Option<ColumnType> {
        if s == "int"@ {
            Some(ColumnType::Int)
        } else if s == "uint"@ {
            Some(ColumnType::UInt)
        } else if s == "long"@ {
            Some(ColumnType::Long)
        } else if s == "ulong"@ {
            Some(ColumnType::ULong)
        } else if s == "double"@ {
            Some(ColumnType::Double)
        } else if s == "bool"@ {
            Some(ColumnType::Bool)
        } else if s == "string"@ {
            Some(ColumnType::String)
        } else {
            None
        }
    }

    pub fn from_str(s: &str) -> (r: Option<Self>)
        ensures
            r == ColumnType::named(s@),
    {
        if same_text(s, "int") {
            Some(ColumnType::Int)
        } else if same_text(s, "uint") {
            Some(ColumnType::UInt)
        } else if same_text(s, "long") {
            Some(ColumnType::Long)
        } else if same_text(s, "ulong") {
            Some(ColumnType::ULong)
        } else if same_text(s, "double") {
            Some(ColumnType::Double)
        } else if same_text(s, "bool") {
            Some(ColumnType::Bool)
        } else if same_text(s, "string") {
            Some(ColumnType::String)
        } else {
            None
        }
    }

    pub fn as_str(&self) -> (r: &'static str)
        ensures
            r@ == self.name_text(),
    {
        match self {
            ColumnType::Int => "int",
            ColumnType::UInt => "uint",
            ColumnType::Long => "long",
            ColumnType::ULong => "ulong",
            ColumnType::Double => "double",
            ColumnType::Bool => "bool",
            ColumnType::String => "string",
        }
    }
}

/// Every type is found again under its own name.
pub proof fn lemma_column_type_name_round_trip(t: ColumnType)
    ensures
        ColumnType::named(t.name_text()) == Some(t),
{
    reveal_strlit("int");
    reveal_strlit("uint");
    reveal_strlit("long");
    reveal_strlit("ulong");
    reveal_strlit("double");
    reveal_strlit("bool");
    reveal_strlit("string");
    match t {
        ColumnType::Int => {},
        ColumnType::UInt => {
            assert("uint"@[0] != "int"@[0]);
        },
        ColumnType::Long => {
            assert("long"@[0] != "int"@[0]);
            assert("long"@[0] != "uint"@[0]);
        },
        ColumnType::ULong => {
            assert("ulong"@.len() != "int"@.len());
            assert("ulong"@.len() != "uint"@.len());
            assert("ulong"@.len() != "long"@.len());
        },
        ColumnType::Double => {
            assert("double"@.len() != "int"@.len());
            assert("double"@.len() != "uint"@.len());
            assert("double"@.len() != "long"@.len());
            assert("double"@.len() != "ulong"@.len());
        },
        ColumnType::Bool => {
            assert("bool"@[0] != "int"@[0]);
            assert("bool"@[0] != "uint"@[0]);
            assert("bool"@[0] != "long"@[0]);
            assert("bool"@.len() != "ulong"@.len());
            assert("bool"@.len() != "double"@.len());
        },
        ColumnType::String => {
            assert("string"@.len() != "int"@.len());
            assert("string"@.len() != "uint"@.len());
            assert("string"@.len() != "long"@.len());
            assert("string"@.len() != "ulong"@.len());
            assert("string"@[0] != "double"@[0]);
            assert("string"@.len() != "bool"@.len());
        },
    }
}

/// One column of a table: its name, its type and its place among the columns.
#[derive(Debug, Clone, Default)]
pub struct ColumnMeta {
    pub id: Id,
    pub created: String,
    pub modified: String,
    pub name: String,
    pub type_id: Id,
    pub column_type: ColumnType,
    pub order: i64,
    pub comment: String,
}

impl ColumnMeta {
    pub fn id(&self) -> (r: Id)
        ensures
            r == self.id,
    {
        self.id
    }

    pub fn name(&self) -> (r: &str)
        ensures
            r@ == self.name@,
    {
        self.name.as_str()
    }

    pub fn type_id(&self) -> (r: Id)
        ensures
            r == self.type_id,
    {
        self.type_id
    }

    pub fn column_type(&self) -> (r: ColumnType)
        ensures
            r == self.column_type,
    {
        self.column_type
    }

    pub fn order(&self) -> (r: i64)
        ensures
            r == self.order,
    {
        self.order
    }

    pub fn comment(&self) -> (r: &str)
        ensures
            r@ == self.comment@,
    {
        self.comment.as_str()
    }

    /// The `created` text read as an instant.
    pub fn created(&self) -> (r: Result<Timestamp, ParseTimestampError>)
        ensures
            is_reading_of(r, self.created@),
    {
        parse_timestamp(self.created.as_str())
    }

    /// The `modified` text read as an instant.
    pub fn modified(&self) -> (r: Result<Timestamp, ParseTimestampError>)
        ensures
            is_reading_of(r, self.modified@),
    {
        parse_timestamp(self.modified.as_str())
    }

}

/// One directory of the calibration tree; `parent_id` 0 marks a child of the root.
#[derive(Debug, Clone, Default)]
pub struct DirectoryMeta {
    pub id: Id,
    pub created: String,
    pub modified: String,
    pub name: String,
    pub parent_id: Id,
    pub author_id: Id,
    pub comment: String,
    pub is_deprecated: bool,
    pub deprecated_by_user_id: Id,
    pub is_locked: bool,
    pub locked_by_user_id: Id,
}

impl DirectoryMeta {
    pub fn id(&self) -> (r: Id)
        ensures
            r == self.id,
    {
        self.id
    }

    pub fn name(&self) -> (r: &str)
        ensures
            r@ == self.name@,
    {
        self.name.as_str()
    }

    pub fn parent_id(&self) -> (r: Id)
        ensures
            r == self.parent_id,
    {
        self.parent_id
    }

    pub fn author_id(&self) -> (r: Id)
        ensures
            r == self.author_id,
    {
        self.author_id
    }

    pub fn comment(&self) -> (r: &str)
        ensures
            r@ == self.comment@,
    {
        self.comment.as_str()
    }

    pub fn is_deprecated(&self) -> (r: bool)
        ensures
            r == self.is_deprecated,
    {
        self.is_deprecated
    }

    pub fn deprecated_by_user_id(&self) -> (r: Id)
        ensures
            r == self.deprecated_by_user_id,
    {
        self.deprecated_by_user_id
    }

    pub fn is_locked(&self) -> (r: bool)
        ensures
            r == self.is_locked,
    {
        self.is_locked
    }

    pub fn locked_by_user_id(&self) -> (r: Id)
        ensures
            r == self.locked_by_user_id,
    {
        self.locked_by_user_id
    }

    /// The `created` text read as an instant.
    pub fn created(&self) -> (r: Result<Timestamp, ParseTimestampError>)
        ensures
            is_reading_of(r, self.created@),
    {
        parse_timestamp(self.created.as_str())
    }

    /// The `modified` text read as an instant.
    pub fn modified(&self) -> (r: Result<Timestamp, ParseTimestampError>)
        ensures
            is_reading_of(r, self.modified@),
    {
        parse_timestamp(self.modified.as_str())
    }

}

/// One table: the directory it lives in and the shape of its payloads.
#[derive(Debug, Clone, Default)]
pub struct TypeTableMeta {
    pub id: Id,
    pub created: String,
    pub modified: String,
    pub directory_id: Id,
    pub name: String,
    pub n_rows: i64,
    pub n_columns: i64,
    pub n_assignments: i64,
    pub author_id: Id,
    pub comment: String,
    pub is_deprecated: bool,
    pub deprecated_by_user_id: Id,
    pub is_locked: bool,
    pub locked_by_user_id: Id,
    pub lock_time: String,
}

impl TypeTableMeta {
    pub fn id(&self) -> (r: Id)
        ensures
            r == self.id,
    {
        self.id
    }

    pub fn directory_id(&self) -> (r: Id)
        ensures
            r == self.directory_id,
    {
        self.directory_id
    }

    pub fn name(&self) -> (r: &str)
        ensures
            r@ == self.name@,
    {
        self.name.as_str()
    }

    pub fn n_rows(&self) -> (r: i64)
        ensures
            r == self.n_rows,
    {
        self.n_rows
    }

    pub fn n_columns(&self) -> (r: i64)
        ensures
            r == self.n_columns,
    {
        self.n_columns
    }

    pub fn n_assignments(&self) -> (r: i64)
        ensures
            r == self.n_assignments,
    {
        self.n_assignments
    }

    pub fn author_id(&self) -> (r: Id)
        ensures
            r == self.author_id,
    {
        self.author_id
    }

    pub fn comment(&self) -> (r: &str)
        ensures
            r@ == self.comment@,
    {
        self.comment.as_str()
    }

    pub fn is_deprecated(&self) -> (r: bool)
        ensures
            r == self.is_deprecated,
    {
        self.is_deprecated
    }

    pub fn deprecated_by_user_id(&self) -> (r: Id)
        ensures
            r == self.deprecated_by_user_id,
    {
        self.deprecated_by_user_id
    }

    pub fn is_locked(&self) -> (r: bool)
        ensures
            r == self.is_locked,
    {
        self.is_locked
    }

    pub fn locked_by_user_id(&self) -> (r: Id)
        ensures
            r == self.locked_by_user_id,
    {
        self.locked_by_user_id
    }

    /// The `created` text read as an instant.
    pub fn created(&self) -> (r: Result<Timestamp, ParseTimestampError>)
        ensures
            is_reading_of(r, self.created@),
    {
        parse_timestamp(self.created.as_str())
    }

    /// The `modified` text read as an instant.
    pub fn modified(&self) -> (r: Result<Timestamp, ParseTimestampError>)
        ensures
            is_reading_of(r, self.modified@),
    {
        parse_timestamp(self.modified.as_str())
    }

    /// The `lock_time` text read as an instant.
    pub fn lock_time(&self) -> (r: Result<Timestamp, ParseTimestampError>)
        ensures
            is_reading_of(r, self.lock_time@),
    {
        parse_timestamp(self.lock_time.as_str())
    }

}

/// One stored payload: the vault text and the table it belongs to.
#[derive(Debug, Clone, Default)]
pub struct ConstantSetMeta {
    pub id: Id,
    pub created: String,
    pub modified: String,
    pub vault: String,
    pub constant_type_id: Id,
}

impl ConstantSetMeta {
    pub fn id(&self) -> (r: Id)
        ensures
            r == self.id,
    {
        self.id
    }

    pub fn vault(&self) -> (r: &str)
        ensures
            r@ == self.vault@,
    {
        self.vault.as_str()
    }

    pub fn constant_type_id(&self) -> (r: Id)
        ensures
            r == self.constant_type_id,
    {
        self.constant_type_id
    }

    /// The `created` text read as an instant.
    pub fn created(&self) -> (r: Result<Timestamp, ParseTimestampError>)
        ensures
            is_reading_of(r, self.created@),
    {
        parse_timestamp(self.created.as_str())
    }

    /// The `modified` text read as an instant.
    pub fn modified(&self) -> (r: Result<Timestamp, ParseTimestampError>)
        ensures
            is_reading_of(r, self.modified@),
    {
        parse_timestamp(self.modified.as_str())
    }

}

/// One assignment: the binding of a payload to a variation and a run range.
#[derive(Debug, Clone, Default)]
pub struct AssignmentMeta {
    pub id: Id,
    pub created: String,
    pub modified: String,
    pub variation_id: Id,
    pub run_range_id: Id,
    pub event_range_id: Id,
    pub author_id: Id,
    pub comment: String,
    pub constant_set_id: Id,
}

impl AssignmentMeta {
    pub fn id(&self) -> (r: Id)
        ensures
            r == self.id,
    {
        self.id
    }

    pub fn variation_id(&self) -> (r: Id)
        ensures
            r == self.variation_id,
    {
        self.variation_id
    }

    pub fn run_range_id(&self) -> (r: Id)
        ensures
            r == self.run_range_id,
    {
        self.run_range_id
    }

    pub fn event_range_id(&self) -> (r: Id)
        ensures
            r == self.event_range_id,
    {
        self.event_range_id
    }

    pub fn author_id(&self) -> (r: Id)
        ensures
            r == self.author_id,
    {
        self.author_id
    }

    pub fn comment(&self) -> (r: &str)
        ensures
            r@ == self.comment@,
    {
        self.comment.as_str()
    }

    pub fn constant_set_id(&self) -> (r: Id)
        ensures
            r == self.constant_set_id,
    {
        self.constant_set_id
    }

    /// The `created` text read as an instant.
    pub fn created(&self) -> (r: Result<Timestamp, ParseTimestampError>)
        ensures
            is_reading_of(r, self.created@),
    {
        parse_timestamp(self.created.as_str())
    }

    /// The `modified` text read as an instant.
    pub fn modified(&self) -> (r: Result<Timestamp, ParseTimestampError>)
        ensures
            is_reading_of(r, self.modified@),
    {
        parse_timestamp(self.modified.as_str())
    }

}

/// What assignment resolution keeps of an assignment.
#[derive(Debug, Clone, Default)]
pub struct AssignmentMetaLite {
    pub id: Id,
    pub created: String,
    pub constant_set_id: Id,
}

impl AssignmentMetaLite {
    pub fn id(&self) -> (r: Id)
        ensures
            r == self.id,
    {
        self.id
    }

    pub fn constant_set_id(&self) -> (r: Id)
        ensures
            r == self.constant_set_id,
    {
        self.constant_set_id
    }

    /// The `created` text read as an instant.
    pub fn created(&self) -> (r: Result<Timestamp, ParseTimestampError>)
        ensures
            is_reading_of(r, self.created@),
    {
        parse_timestamp(self.created.as_str())
    }

}

/// One variation; `parent_id` 0 marks a root of the inheritance forest.
#[derive(Debug, Clone, Default)]
pub struct VariationMeta {
    pub id: Id,
    pub created: String,
    pub modified: String,
    pub name: String,
    pub description: String,
    pub author_id: Id,
    pub comment: String,
    pub parent_id: Id,
    pub is_locked: bool,
    pub lock_time: String,
    pub locked_by_user_id: Id,
    pub go_back_behavior: i64,
    pub go_back_time: String,
    pub is_deprecated: bool,
    pub deprecated_by_user_id: Id,
}

impl VariationMeta {
    pub fn id(&self) -> (r: Id)
        ensures
            r == self.id,
    {
        self.id
    }

    pub fn name(&self) -> (r: &str)
        ensures
            r@ == self.name@,
    {
        self.name.as_str()
    }

    pub fn description(&self) -> (r: &str)
        ensures
            r@ == self.description@,
    {
        self.description.as_str()
    }

    pub fn author_id(&self) -> (r: Id)
        ensures
            r == self.author_id,
    {
        self.author_id
    }

    pub fn comment(&self) -> (r: &str)
        ensures
            r@ == self.comment@,
    {
        self.comment.as_str()
    }

    pub fn parent_id(&self) -> (r: Id)
        ensures
            r == self.parent_id,
    {
        self.parent_id
    }

    pub fn is_locked(&self) -> (r: bool)
        ensures
            r == self.is_locked,
    {
        self.is_locked
    }

    pub fn locked_by_user_id(&self) -> (r: Id)
        ensures
            r == self.locked_by_user_id,
    {
        self.locked_by_user_id
    }

    pub fn go_back_behavior(&self) -> (r: i64)
        ensures
            r == self.go_back_behavior,
    {
        self.go_back_behavior
    }

    pub fn is_deprecated(&self) -> (r: bool)
        ensures
            r == self.is_deprecated,
    {
        self.is_deprecated
    }

    pub fn deprecated_by_user_id(&self) -> (r: Id)
        ensures
            r == self.deprecated_by_user_id,
    {
        self.deprecated_by_user_id
    }

    /// The `created` text read as an instant.
    pub fn created(&self) -> (r: Result<Timestamp, ParseTimestampError>)
        ensures
            is_reading_of(r, self.created@),
    {
        parse_timestamp(self.created.as_str())
    }

    /// The `modified` text read as an instant.
    pub fn modified(&self) -> (r: Result<Timestamp, ParseTimestampError>)
        ensures
            is_reading_of(r, self.modified@),
    {
        parse_timestamp(self.modified.as_str())
    }

    /// The `lock_time` text read as an instant.
    pub fn lock_time(&self) -> (r: Result<Timestamp, ParseTimestampError>)
        ensures
            is_reading_of(r, self.lock_time@),
    {
        parse_timestamp(self.lock_time.as_str())
    }

    /// The `go_back_time` text read as an instant.
    pub fn go_back_time(&self) -> (r: Result<Timestamp, ParseTimestampError>)
        ensures
            is_reading_of(r, self.go_back_time@),
    {
        parse_timestamp(self.go_back_time.as_str())
    }

}

/// One inclusive range of runs.
#[derive(Debug, Clone, Default)]
pub struct RunRangeMeta {
    pub id: Id,
    pub created: String,
    pub modified: String,
    pub name: String,
    pub run_min: RunNumber,
    pub run_max: RunNumber,
    pub comment: String,
}

impl RunRangeMeta {
    pub fn id(&self) -> (r: Id)
        ensures
            r == self.id,
    {
        self.id
    }

    pub fn name(&self) -> (r: &str)
        ensures
            r@ == self.name@,
    {
        self.name.as_str()
    }

    pub fn run_min(&self) -> (r: RunNumber)
        ensures
            r == self.run_min,
    {
        self.run_min
    }

    pub fn run_max(&self) -> (r: RunNumber)
        ensures
            r == self.run_max,
    {
        self.run_max
    }

    pub fn comment(&self) -> (r: &str)
        ensures
            r@ == self.comment@,
    {
        self.comment.as_str()
    }

    /// The `created` text read as an instant.
    pub fn created(&self) -> (r: Result<Timestamp, ParseTimestampError>)
        ensures
            is_reading_of(r, self.created@),
    {
        parse_timestamp(self.created.as_str())
    }

    /// The `modified` text read as an instant.
    pub fn modified(&self) -> (r: Result<Timestamp, ParseTimestampError>)
        ensures
            is_reading_of(r, self.modified@),
    {
        parse_timestamp(self.modified.as_str())
    }

}

/// One range of events within a run.
#[derive(Debug, Clone, Default)]
pub struct EventRangeMeta {
    pub id: Id,
    pub created: String,
    pub modified: String,
    pub run_number: RunNumber,
    pub event_min: i64,
    pub event_max: i64,
    pub comment: String,
}

impl EventRangeMeta {
    pub fn id(&self) -> (r: Id)
        ensures
            r == self.id,
    {
        self.id
    }

    pub fn run_number(&self) -> (r: RunNumber)
        ensures
            r == self.run_number,
    {
        self.run_number
    }

    pub fn event_min(&self) -> (r: i64)
        ensures
            r == self.event_min,
    {
        self.event_min
    }

    pub fn event_max(&self) -> (r: i64)
        ensures
            r == self.event_max,
    {
        self.event_max
    }

    pub fn comment(&self) -> (r: &str)
        ensures
            r@ == self.comment@,
    {
        self.comment.as_str()
    }

    /// The `created` text read as an instant.
    pub fn created(&self) -> (r: Result<Timestamp, ParseTimestampError>)
        ensures
            is_reading_of(r, self.created@),
    {
        parse_timestamp(self.created.as_str())
    }

    /// The `modified` text read as an instant.
    pub fn modified(&self) -> (r: Result<Timestamp, ParseTimestampError>)
        ensures
            is_reading_of(r, self.modified@),
    {
        parse_timestamp(self.modified.as_str())
    }

}

} // verus!
