//! A prioritized terminal todo list built from assignment records of two
//! remote learning-management sources: a JSON API and a scraped dashboard.
//!
//! The crate holds the logic of the tool: the unified assignment model, the
//! exclusion and visibility rules, the merge and ordering of the report, the
//! retry policy of the fetch client, and the registry of in-flight progress
//! labels. Network and terminal I/O stay outside.

pub mod assignment;
pub mod canvas;
pub mod color;
pub mod config;
pub mod digits;
pub mod error;
pub mod filter;
pub mod gradescope;
pub mod progress;
pub mod report;
pub mod retry;
pub mod seq_util;
pub mod time;
