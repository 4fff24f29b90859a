//! Footer shortcut entries.

use vstd::prelude::*;

verus! {

/// One footer shortcut: the key to press and what it does.
#[derive(Debug, Clone, Copy)]
pub struct FooterItem {
    pub key: &'static str,
    pub label: &'static str,
    pub enabled: bool,
}

impl FooterItem {
    /// An enabled shortcut.
    pub fn new(key: &'static str, label: &'static str) -> (r: Self)
        ensures
            r == (FooterItem { key, label, enabled: true }),
    {
        FooterItem { key, label, enabled: true }
    }
}

} // verus!
