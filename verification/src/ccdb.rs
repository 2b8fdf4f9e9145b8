//! The calibration and conditions database: paths, versioned assignments
//! and payload decoding.

pub mod catalog;
pub mod context;
pub mod data;
pub mod error;
pub mod index;
pub mod loader;
pub mod models;
pub mod paths;
pub mod resolve;
pub mod variations;
