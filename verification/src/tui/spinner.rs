//! The activity spinner.

use vstd::prelude::*;

verus! {

/// The spinner frame shown `n` steps into the cycle (of ten frames).
pub open spec fn spinner_frame(n: int) -> &'static str {
    if n == 0 {
        "⠋"
    } else if n == 1 {
        "⠙"
    } else if n == 2 {
        "⠹"
    } else if n == 3 {
        "⠸"
    } else if n == 4 {
        "⠼"
    } else if n == 5 {
        "⠴"
    } else if n == 6 {
        "⠦"
    } else if n == 7 {
        "⠧"
    } else if n == 8 {
        "⠇"
    } else {
        "⠏"
    }
}

/// The spinner frame for the time elapsed since the spinner started: one frame every 80 ms,
/// ten frames to a cycle.
pub fn get_spinner_char(elapsed_ms: u128) -> (r: &'static str)
    ensures
        r == spinner_frame(((elapsed_ms / 80) % 10) as int),
{
    let step = (elapsed_ms / 80) % 10;
    if step == 0 {
        "⠋"
    } else if step == 1 {
        "⠙"
    } else if step == 2 {
        "⠹"
    } else if step == 3 {
        "⠸"
    } else if step == 4 {
        "⠼"
    } else if step == 5 {
        "⠴"
    } else if step == 6 {
        "⠦"
    } else if step == 7 {
        "⠧"
    } else if step == 8 {
        "⠇"
    } else {
        "⠏"
    }
}

} // verus!
