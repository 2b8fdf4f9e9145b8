//! The records of the run-conditions database.

use vstd::prelude::*;
use crate::float::Float64;
use crate::text::same_text;
use crate::timestamp::{is_reading_of, parse_timestamp, ParseTimestampError, Timestamp};
use crate::{Id, RunNumber};

verus! {

/// The type of the values of a condition.
#[derive(Debug, Copy, Clone, PartialEq, Eq, Structural, Hash)]
pub enum ValueType {
    /// Text, stored in `text_value`.
    String,
    /// Signed integer, stored in `int_value`.
    Int,
    /// Truth value, stored in `bool_value`.
    Bool,
    /// Double-precision number, stored in `float_value`.
    Float,
    /// JSON text, stored in `text_value`.
    Json,
    /// Arbitrary data as text, stored in `text_value`.
    Blob,
    /// Instant, stored in `time_value`.
    Time,
}

impl Default for ValueType {
    fn default() -> (t: Self)
        ensures
            t == ValueType::String,
    {
        ValueType::String
    }
}

impl ValueType {
    /// The identifier under which the database stores the type.
    pub open spec fn identifier(self) -> Seq<char> {
        match self {
            ValueType::String => "string"@,
            ValueType::Int => "int"@,
            ValueType::Bool => "bool"@,
            ValueType::Float => "float"@,
            ValueType::Json => "json"@,
            ValueType::Blob => "blob"@,
            ValueType::Time => "time"@,
        }
    }

    /// The type stored under the identifier `s`, if any.
    pub open spec fn identified(s: Seq<char>) -> Option<ValueType> {
        if s == "string"@ {
            Some(ValueType::String)
        } else if s == "int"@ {
            Some(ValueType::Int)
        } else if s == "bool"@ {
            Some(ValueType::Bool)
        } else if s == "float"@ {
            Some(ValueType::Float)
        } else if s == "json"@ {
            Some(ValueType::Json)
        } else if s == "blob"@ {
            Some(ValueType::Blob)
        } else if s == "time"@ {
            Some(ValueType::Time)
        } else {
            None
        }
    }

    /// Whether values of the type are kept in the `text_value` column.
    pub open spec fn textual(self) -> bool {
        self == ValueType::String || self == ValueType::Json || self == ValueType::Blob
    }

    /// The column of the `conditions` table that holds values of the type.
    pub open spec fn column(self) -> Seq<char> {
        match self {
            ValueType::String => "text_value"@,
            ValueType::Json => "text_value"@,
            ValueType::Blob => "text_value"@,
            ValueType::Int => "int_value"@,
            ValueType::Bool => "bool_value"@,
            ValueType::Float => "float_value"@,
            ValueType::Time => "time_value"@,
        }
    }

    pub fn as_str(&self) -> (r: &'static str)
        ensures
            r@ == self.identifier(),
    {
        match self {
            ValueType::String => "string",
            ValueType::Int => "int",
            ValueType::Bool => "bool",
            ValueType::Float => "float",
            ValueType::Json => "json",
            ValueType::Blob => "blob",
            ValueType::Time => "time",
        }
    }

    pub fn from_identifier(value: &str) -> (r: Option<Self>)
        ensures
            r == ValueType::identified(value@),
    {
        if same_text(value, "string") {
            Some(ValueType::String)
        } else if same_text(value, "int") {
            Some(ValueType::Int)
        } else if same_text(value, "bool") {
            Some(ValueType::Bool)
        } else if same_text(value, "float") {
            Some(ValueType::Float)
        } else if same_text(value, "json") {
            Some(ValueType::Json)
        } else if same_text(value, "blob") {
            Some(ValueType::Blob)
        } else if same_text(value, "time") {
            Some(ValueType::Time)
        } else {
            None
        }
    }

    pub fn is_textual(&self) -> (r: bool)
        ensures
            r == self.textual(),
    {
        match self {
            ValueType::String => true,
            ValueType::Json => true,
            ValueType::Blob => true,
            _ => false,
        }
    }

    pub fn column_name(&self) -> (r: &'static str)
        ensures
            r@ == self.column(),
    {
        match self {
            ValueType::String => "text_value",
            ValueType::Json => "text_value",
            ValueType::Blob => "text_value",
            ValueType::Int => "int_value",
            ValueType::Bool => "bool_value",
            ValueType::Float => "float_value",
            ValueType::Time => "time_value",
        }
    }
}

/// Every type is found again under its own identifier.
pub proof fn lemma_value_type_round_trip(t: ValueType)
    ensures
        ValueType::identified(t.identifier()) == Some(t),
{
    reveal_strlit("string");
    reveal_strlit("int");
    reveal_strlit("bool");
    reveal_strlit("float");
    reveal_strlit("json");
    reveal_strlit("blob");
    reveal_strlit("time");
    let names = seq!["string"@, "int"@, "bool"@, "float"@, "json"@, "blob"@, "time"@];
    assert(names[0][0] == 's' && names[1][0] == 'i' && names[2][1] == 'o' && names[3][0] == 'f');
    assert(names[4][0] == 'j' && names[5][1] == 'l' && names[6][0] == 't');
    assert("bool"@[0] == 'b' && "blob"@[0] == 'b' && "bool"@[1] == 'o' && "blob"@[1] == 'l');
    match t {
        ValueType::String => {},
        ValueType::Int => {
            assert("int"@[0] != "string"@[0]);
        },
        ValueType::Bool => {
            assert("bool"@[0] != "string"@[0]);
            assert("bool"@[0] != "int"@[0]);
        },
        ValueType::Float => {
            assert("float"@[0] != "string"@[0]);
            assert("float"@[0] != "int"@[0]);
            assert("float"@[0] != "bool"@[0]);
        },
        ValueType::Json => {
            assert("json"@[0] != "string"@[0]);
            assert("json"@[0] != "int"@[0]);
            assert("json"@[0] != "bool"@[0]);
            assert("json"@[0] != "float"@[0]);
        },
        ValueType::Blob => {
            assert("blob"@[0] != "string"@[0]);
            assert("blob"@[0] != "int"@[0]);
            assert("blob"@[1] != "bool"@[1]);
            assert("blob"@[0] != "float"@[0]);
            assert("blob"@[0] != "json"@[0]);
        },
        ValueType::Time => {
            assert("time"@[0] != "string"@[0]);
            assert("time"@[0] != "int"@[0]);
            assert("time"@[0] != "bool"@[0]);
            assert("time"@[0] != "float"@[0]);
            assert("time"@[0] != "json"@[0]);
            assert("time"@[0] != "blob"@[0]);
        },
    }
}

/// One condition type: its unique name and the type of its values.
#[derive(Debug, Clone)]
pub struct ConditionTypeMeta {
    pub id: Id,
    pub name: String,
    pub value_type: ValueType,
    pub created: String,
    pub description: String,
}

impl ConditionTypeMeta {
    pub fn id(&self) -> (r: Id)
        ensures
            r == self.id,
    {
        self.id
    }

    pub fn name(&self) -> (r: &str)
        ensures
            r@ == self.name@,
    {
        self.name.as_str()
    }

    pub fn value_type(&self) -> (r: ValueType)
        ensures
            r == self.value_type,
    {
        self.value_type
    }

    pub fn created(&self) -> (r: String)
        ensures
            r@ == self.created@,
    {
        self.created.clone()
    }

    pub fn description(&self) -> (r: &str)
        ensures
            r@ == self.description@,
    {
        self.description.as_str()
    }

}

/// One stored condition value of a run, with all its typed columns.
#[derive(Debug, Clone)]
pub struct ConditionMeta {
    pub id: Id,
    pub text_value: String,
    pub int_value: i64,
    pub float_value: Float64,
    pub bool_value: i64,
    pub run_number: RunNumber,
    pub condition_type_id: Id,
    pub created: String,
    pub time_value: String,
}

impl ConditionMeta {
    pub fn id(&self) -> (r: Id)
        ensures
            r == self.id,
    {
        self.id
    }

    pub fn text_value(&self) -> (r: &str)
        ensures
            r@ == self.text_value@,
    {
        self.text_value.as_str()
    }

    pub fn int_value(&self) -> (r: i64)
        ensures
            r == self.int_value,
    {
        self.int_value
    }

    pub fn float_value(&self) -> (r: Float64)
        ensures
            r == self.float_value,
    {
        self.float_value
    }

    pub fn bool_value(&self) -> (r: i64)
        ensures
            r == self.bool_value,
    {
        self.bool_value
    }

    pub fn run_number(&self) -> (r: RunNumber)
        ensures
            r == self.run_number,
    {
        self.run_number
    }

    pub fn condition_type_id(&self) -> (r: Id)
        ensures
            r == self.condition_type_id,
    {
        self.condition_type_id
    }

    /// The `created` text read as an instant.
    pub fn created(&self) -> (r: Result<Timestamp, ParseTimestampError>)
        ensures
            is_reading_of(r, self.created@),
    {
        parse_timestamp(self.created.as_str())
    }

    /// The `time_value` text read as an instant.
    pub fn time_value(&self) -> (r: Result<Timestamp, ParseTimestampError>)
        ensures
            is_reading_of(r, self.time_value@),
    {
        parse_timestamp(self.time_value.as_str())
    }

}

/// One named period of runs.
#[derive(Debug, Clone)]
pub struct RunPeriodMeta {
    pub id: Id,
    pub name: String,
    pub description: String,
    pub run_min: RunNumber,
    pub run_max: RunNumber,
    pub start_date: String,
    pub end_date: String,
}

impl RunPeriodMeta {
    pub fn id(&self) -> (r: Id)
        ensures
            r == self.id,
    {
        self.id
    }

    pub fn name(&self) -> (r: &str)
        ensures
            r@ == self.name@,
    {
        self.name.as_str()
    }

    pub fn description(&self) -> (r: &str)
        ensures
            r@ == self.description@,
    {
        self.description.as_str()
    }

    pub fn run_min(&self) -> (r: RunNumber)
        ensures
            r == self.run_min,
    {
        self.run_min
    }

    pub fn run_max(&self) -> (r: RunNumber)
        ensures
            r == self.run_max,
    {
        self.run_max
    }

    /// The `start_date` text read as an instant.
    pub fn start_date(&self) -> (r: Result<Timestamp, ParseTimestampError>)
        ensures
            is_reading_of(r, self.start_date@),
    {
        parse_timestamp(self.start_date.as_str())
    }

    /// The `end_date` text read as an instant.
    pub fn end_date(&self) -> (r: Result<Timestamp, ParseTimestampError>)
        ensures
            is_reading_of(r, self.end_date@),
    {
        parse_timestamp(self.end_date.as_str())
    }

}

/// One run and the texts of its start and end times.
#[derive(Debug, Clone)]
pub struct RunMeta {
    pub number: RunNumber,
    pub started: String,
    pub finished: String,
}

impl RunMeta {
    pub fn number(&self) -> (r: RunNumber)
        ensures
            r == self.number,
    {
        self.number
    }

    /// The `started` text read as an instant.
    pub fn started(&self) -> (r: Result<Timestamp, ParseTimestampError>)
        ensures
            is_reading_of(r, self.started@),
    {
        parse_timestamp(self.started.as_str())
    }

    /// The `finished` text read as an instant.
    pub fn finished(&self) -> (r: Result<Timestamp, ParseTimestampError>)
        ensures
            is_reading_of(r, self.finished@),
    {
        parse_timestamp(self.finished.as_str())
    }

}

} // verus!
