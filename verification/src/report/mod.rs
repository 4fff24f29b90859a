//! Benchmark results: per-stream statistics, their totals, units and the report tables.

pub mod colors;
pub mod lines;
pub mod plain;
pub mod stats;
pub mod table;
pub mod units;
