//! ANSI terminal colors and style attributes of the reports.

use vstd::prelude::*;

verus! {

pub const BLUE: &'static str = "\x1b[38;2;137;180;250m";
pub const MAROON: &'static str = "\x1b[38;2;235;160;172m";
pub const PINK: &'static str = "\x1b[38;2;245;194;231m";
pub const RED: &'static str = "\x1b[91m";
pub const BOLD: &'static str = "\x1b[1m";
pub const NO_BOLD: &'static str = "\x1b[22m";
pub const RESET: &'static str = "\x1b[0m";

} // verus!
