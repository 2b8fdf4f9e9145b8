//! The run-conditions database: condition types, predicate expressions and
//! query planning.

pub mod aliases;
pub mod cond;
pub mod context;
pub mod data;
pub mod error;
pub mod models;
pub mod query;
pub mod rows;
