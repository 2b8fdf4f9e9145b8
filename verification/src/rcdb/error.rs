//! What can go wrong when planning or decoding a run-conditions query.

use vstd::prelude::*;
use crate::rcdb::models::ValueType;
use crate::timestamp::ParseTimestampError;
use crate::RunNumber;

verus! {

/// The errors of the run-conditions logic.
#[derive(Debug, Clone)]
pub enum RCDBError {
    /// No condition type bears the name.
    ConditionTypeNotFound(String),
    /// An expression declares the condition with another type than the
    /// database does.
    ConditionTypeMismatch { condition_name: String, expected: ValueType, actual: ValueType },
    /// The database holds no row for schema version 2.
    MissingSchemaVersion,
    /// The text of a `time` value is no instant.
    ParseTimestampError(ParseTimestampError),
    /// The database names a value type that is not known.
    UnknownValueType(String),
    /// A `time` condition has no `time_value`.
    MissingTimeValue { condition_name: String, run_number: RunNumber },
    /// A fetch names no condition.
    EmptyConditionList,
    /// A stored value is of another storage class than the type of its
    /// condition asks for.
    UnexpectedStorage { condition_name: String, run_number: RunNumber },
}

} // verus!
