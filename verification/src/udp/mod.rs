//! The UDP benchmark: checking a request against the client interface and the server.

pub mod checks;
pub mod config;
pub mod messages;
pub mod validator;
