//! The kernel release version.

use vstd::prelude::*;

use crate::text::{lemma_split_nonempty, parse_unsigned, parse_unsigned_spec, split_chars, split_spec, chars_of};

verus! {

/// A kernel version: major and minor numbers.
#[derive(Debug, Clone, Copy, PartialEq, Eq, Structural)]
pub struct KernelVersion {
    pub major: u32,
    pub minor: u32,
}

/// The version a release string names: its first two dot-separated numbers, before any `-`.
pub open spec fn release_version(release: Seq<char>) -> Option<KernelVersion> {
    let version = split_spec(release, '-')[0];
    let parts = split_spec(version, '.');
    if parts.len() < 2 {
        None
    } else {
        match (parse_unsigned_spec(parts[0], u32::MAX as int), parse_unsigned_spec(parts[1], u32::MAX as int)) {
            (Some(major), Some(minor)) => Some(KernelVersion { major: major as u32, minor: minor as u32 }),
            _ => None,
        }
    }
}

impl KernelVersion {
    /// Reads the version of a kernel release string (as `uname -r` gives it, such as
    /// `6.8.0-45-generic`).
    pub fn from_release(release: &str) -> (r: Option<KernelVersion>)
        ensures
            r == release_version(release@),
    {
        let rc = chars_of(release);
        let pieces = split_chars(rc.as_slice(), '-');
        proof {
            lemma_split_nonempty(rc@, '-');
        }
        let version = &pieces[0];
        let parts = split_chars(version.as_slice(), '.');
        if parts.len() < 2 {
            return None;
        }
        let major = match parse_unsigned(parts[0].as_slice(), 0xffff_ffff) {
            Some(v) => v as u32,
            None => {
                return None;
            },
        };
        let minor = match parse_unsigned(parts[1].as_slice(), 0xffff_ffff) {
            Some(v) => v as u32,
            None => {
                return None;
            },
        };
        Some(KernelVersion { major, minor })
    }
}

} // verus!
