//! What can go wrong when answering a request for calibration constants.

use vstd::prelude::*;
use crate::ccdb::context::ParseRequestError;
use crate::ccdb::data::CCDBDataError;
use crate::timestamp::ParseTimestampError;

verus! {

/// The errors of the calibration logic.
#[derive(Debug, Clone)]
pub enum CCDBError {
    /// A payload could not be decoded.
    CCDBDataError(CCDBDataError),
    /// No directory has the path.
    DirectoryNotFoundError(String),
    /// No table has the path.
    TableNotFoundError(String),
    /// The path names no table.
    InvalidPathError(String),
    /// No variation bears the name.
    VariationNotFoundError(String),
    ParseRequestError(ParseRequestError),
    ParseTimestampError(ParseTimestampError),
}

} // verus!
