//! Read-only access logic for the GlueX calibration (CCDB) and run-condition
//! (RCDB) databases: path resolution, versioned assignment resolution, vault
//! decoding and predicate compilation.

use vstd::prelude::*;

pub mod ccdb;
pub mod float;
pub mod lumi;
pub mod numbers;
pub mod rcdb;
pub mod run_periods;
pub mod runmap;
pub mod sorting;
pub mod text;
pub mod timestamp;

verus! {

/// Primary integer identifier used throughout both databases.
pub type Id = i64;

/// A run number.
pub type RunNumber = i64;

} // verus!
