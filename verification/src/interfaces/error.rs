//! Interface lookup errors.

use vstd::prelude::*;

verus! {

/// Why an interface could not be described.
#[derive(Debug, Clone, Copy, PartialEq, Eq, Structural)]
pub enum InterfaceError {
    /// No interface of that name exists.
    InterfaceNotFound,
    /// A sysfs attribute held text that does not parse.
    InvalidData,
}

impl InterfaceError {
    /// The error's message.
    pub fn message(&self) -> (r: &'static str)
        ensures
            *self is InterfaceNotFound ==> r == "interface not found",
            *self is InvalidData ==> r == "invalid interface data",
    {
        match self {
            InterfaceError::InterfaceNotFound => "interface not found",
            InterfaceError::InvalidData => "invalid interface data",
        }
    }
}

} // verus!
