//! Netlink (rtnetlink) message building and parsing.
//!
//! Netlink carries its integers in the host's byte order; this library targets
//! little-endian machines (x86-64), and its byte layouts are stated as little-endian.


pub mod builder;
pub mod bytes;
pub mod parser;
pub mod types;
pub mod constants;


