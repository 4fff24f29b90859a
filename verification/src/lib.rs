//! Verified core of aether-wire, a Linux end-to-end network benchmarking tool.

pub mod text;
pub mod netlink;
pub mod interfaces;
pub mod unicode;
pub mod parser;
pub mod resolve;
pub mod protocol;
pub mod udp;
pub mod tui;
pub mod report;
pub mod kernel;
pub mod payload;
pub mod logging;
