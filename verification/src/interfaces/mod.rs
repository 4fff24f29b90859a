//! Network interfaces: their model and how sysfs and Netlink replies fill it.

pub mod constants;
pub mod error;
pub mod ip_text;
pub mod listing;
pub mod netlink;
pub mod parser;
pub mod query;
pub mod sysfs;
pub mod types;
