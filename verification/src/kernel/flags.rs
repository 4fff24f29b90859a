//! Kernel build configuration flags, read from the kernel's config file.

use vstd::prelude::*;

use crate::text::{chars_eq, chars_of, string_of, trim_chars, trim_spec};

verus! {

/// Why the kernel configuration could not be read.
#[derive(Debug)]
pub enum KernelConfigError {
    /// Neither `/boot/config-<release>` nor `/lib/modules/<release>/config` exists.
    ConfigNotFound,
    /// Reading the file failed; the error's text.
    Io(String),
}

impl KernelConfigError {
    /// The error's message.
    pub fn message(&self) -> (r: String)
        ensures
            self is ConfigNotFound ==> r@ == "kernel config not found"@,
            self matches KernelConfigError::Io(e) ==> r@ == e@,
    {
        match self {
            KernelConfigError::ConfigNotFound => String::from_str("kernel config not found"),
            KernelConfigError::Io(e) => e.clone(),
        }
    }
}

/// The value of a kernel build flag.
#[derive(Debug, Clone)]
pub enum KernelFlagValue {
    /// Built in (`y`).
    Yes,
    /// Built as a module (`m`).
    Module,
    /// Not set (`n`, `# FLAG is not set`, or absent).
    No,
    /// Any other value.
    Value(String),
}

/// A flag value as text.
pub enum KernelFlagView {
    Yes,
    Module,
    No,
    Value(Seq<char>),
}

impl View for KernelFlagValue {
    type V = KernelFlagView;

    open spec fn view(&self) -> KernelFlagView {
        match self {
            KernelFlagValue::Yes => KernelFlagView::Yes,
            KernelFlagValue::Module => KernelFlagView::Module,
            KernelFlagValue::No => KernelFlagView::No,
            KernelFlagValue::Value(v) => KernelFlagView::Value(v@),
        }
    }
}

/// The config file paths to try for a kernel release: under `/boot`, then under
/// `/lib/modules`.
pub open spec fn config_candidates(release: Seq<char>) -> (Seq<char>, Seq<char>) {
    ("/boot/config-"@ + release, "/lib/modules/"@ + release + "/config"@)
}

/// The config file paths to try for a kernel release.
pub fn kernel_config_candidates(release: &str) -> (r: (String, String))
    ensures
        r.0@ == config_candidates(release@).0,
        r.1@ == config_candidates(release@).1,
{
    let mut boot = String::from_str("/boot/config-");
    boot.append(release);
    let mut modules = String::from_str("/lib/modules/");
    modules.append(release);
    modules.append("/config");
    (boot, modules)
}

/// Picks the kernel config file: the one under `/boot` if it exists, else the one under
/// `/lib/modules` if it exists.
pub fn find_kernel_config_path(release: &str, boot_exists: bool, modules_exists: bool) -> (r: Result<String, KernelConfigError>)
    ensures
        boot_exists ==> (r matches Ok(p) && p@ == config_candidates(release@).0),
        !boot_exists && modules_exists ==> (r matches Ok(p) && p@ == config_candidates(release@).1),
        !boot_exists && !modules_exists ==> r matches Err(KernelConfigError::ConfigNotFound),
{
    let (boot, modules) = kernel_config_candidates(release);
    if boot_exists {
        Ok(boot)
    } else if modules_exists {
        Ok(modules)
    } else {
        Err(KernelConfigError::ConfigNotFound)
    }
}

/// The value named by the text after `FLAG=`.
pub open spec fn flag_value(v: Seq<char>) -> KernelFlagView {
    if v == "y"@ {
        KernelFlagView::Yes
    } else if v == "m"@ {
        KernelFlagView::Module
    } else if v == "n"@ {
        KernelFlagView::No
    } else {
        KernelFlagView::Value(v)
    }
}

/// What a config line says of `flag`, trimmed: `# FLAG is not set` says no, `FLAG=value` gives
/// the value, any other line says nothing.
pub open spec fn line_verdict(line: Seq<char>, flag: Seq<char>) -> Option<KernelFlagView> {
    let t = trim_spec(line);
    let key = flag + "="@;
    if t == "# "@ + flag + " is not set"@ {
        Some(KernelFlagView::No)
    } else if key.len() <= t.len() && t.take(key.len() as int) == key {
        Some(flag_value(t.skip(key.len() as int)))
    } else {
        None
    }
}

/// The value of `flag` in config lines from index `from` on: the first line that says something
/// of it decides; no such line means not set.
pub open spec fn flag_in_lines(lines: Seq<Seq<char>>, flag: Seq<char>, from: int) -> KernelFlagView
    decreases lines.len() - from,
{
    if from < 0 || from >= lines.len() {
        KernelFlagView::No
    } else {
        match line_verdict(lines[from], flag) {
            Some(v) => v,
            None => flag_in_lines(lines, flag, from + 1),
        }
    }
}

/// Whether `s` starts with `p`.
fn starts_with(s: &[char], p: &[char]) -> (r: bool)
    ensures
        r == (p@.len() <= s@.len() && s@.take(p@.len() as int) == p@),
{
    if p.len() > s.len() {
        return false;
    }
    let mut i: usize = 0;
    while i < p.len()
        invariant
            i <= p@.len() <= s@.len(),
            forall|j: int| 0 <= j < i ==> s@[j] == p@[j],
        decreases p@.len() - i,
    {
        if s[i] != p[i] {
            assert(s@.take(p@.len() as int)[i as int] != p@[i as int]);
            return false;
        }
        i = i + 1;
    }
    assert(s@.take(p@.len() as int) =~= p@);
    true
}

/// What one config line says of `flag`.
fn flag_verdict(line: &str, flag: &str) -> (r: Option<KernelFlagValue>)
    ensures
        match r {
            Some(v) => line_verdict(line@, flag@) == Some(v@),
            None => line_verdict(line@, flag@) is None,
        },
{
    let lc = chars_of(line);
    let t = trim_chars(lc.as_slice());
    let mut not_set = String::from_str("# ");
    not_set.append(flag);
    not_set.append(" is not set");
    let ns = chars_of(not_set.as_str());
    if chars_eq(t.as_slice(), ns.as_slice()) {
        return Some(KernelFlagValue::No);
    }
    let mut key = String::from_str(flag);
    key.append("=");
    let kc = chars_of(key.as_str());
    if starts_with(t.as_slice(), kc.as_slice()) {
        let rest = &t.as_slice()[kc.len()..t.len()];
        assert(rest@ =~= t@.skip(kc@.len() as int));
        let v = string_of(rest);
        let value = if crate::text::str_eq(v.as_str(), "y") {
            KernelFlagValue::Yes
        } else if crate::text::str_eq(v.as_str(), "m") {
            KernelFlagValue::Module
        } else if crate::text::str_eq(v.as_str(), "n") {
            KernelFlagValue::No
        } else {
            KernelFlagValue::Value(v)
        };
        return Some(value);
    }
    None
}

/// The value of a kernel build flag in the lines of a kernel config file.
pub fn get_kernel_flag(lines: &[String], flag: &str) -> (r: KernelFlagValue)
    ensures
        r@ == flag_in_lines(lines@.map_values(|l: String| l@), flag@, 0),
{
    let ghost ls = lines@.map_values(|l: String| l@);
    let mut i: usize = 0;
    while i < lines.len()
        invariant
            i <= lines@.len(),
            ls == lines@.map_values(|l: String| l@),
            flag_in_lines(ls, flag@, 0) == flag_in_lines(ls, flag@, i as int),
        decreases lines@.len() - i,
    {
        assert(ls[i as int] == lines@[i as int]@);
        match flag_verdict(lines[i].as_str(), flag) {
            Some(v) => {
                return v;
            },
            None => {},
        }
        i = i + 1;
    }
    KernelFlagValue::No
}

} // verus!
