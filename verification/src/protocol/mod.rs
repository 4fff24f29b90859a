//! Wire-level facts about the benchmark traffic.

pub mod constants;
