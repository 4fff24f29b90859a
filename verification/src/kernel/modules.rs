//! Loaded kernel modules, as `/proc/modules` lists them.

use vstd::prelude::*;

use crate::text::{chars_eq, chars_of, is_white_space, is_whitespace, trim_start_spec};

verus! {

/// Why the module list could not be read.
#[derive(Debug)]
pub enum KernelModuleError {
    /// Reading the list failed; the error's text.
    Io(String),
}

/// The index of the first white space in `s` from `from` on (the length when there is none).
pub open spec fn token_end(s: Seq<char>, from: int) -> int
    decreases s.len() - from,
{
    if from < 0 || from >= s.len() {
        s.len() as int
    } else if is_white_space(s[from]) {
        from
    } else {
        token_end(s, from + 1)
    }
}

/// The first white-space-separated word of a line, if any.
pub open spec fn first_word(line: Seq<char>) -> Option<Seq<char>> {
    let t = trim_start_spec(line);
    if t.len() == 0 {
        None
    } else {
        Some(t.take(token_end(t, 0)))
    }
}

/// Whether some line's first word is `module`.
pub open spec fn module_listed(lines: Seq<Seq<char>>, module: Seq<char>) -> bool {
    exists|i: int| 0 <= i < lines.len() && first_word(#[trigger] lines[i]) == Some(module)
}

proof fn lemma_trim_start_skip(s: Seq<char>, i: int)
    requires
        0 <= i <= s.len(),
        forall|j: int| 0 <= j < i ==> is_white_space(#[trigger] s[j]),
    ensures
        trim_start_spec(s) == trim_start_spec(s.skip(i)),
    decreases i,
{
    if i > 0 {
        assert(s.skip(1).skip(i - 1) =~= s.skip(i));
        assert(s.drop_first() =~= s.skip(1));
        lemma_trim_start_skip(s.drop_first(), i - 1);
    } else {
        assert(s.skip(0) =~= s);
    }
}

/// The first word of a line.
fn line_first_word(line: &str) -> (r: Option<Vec<char>>)
    ensures
        match r {
            Some(w) => first_word(line@) == Some(w@),
            None => first_word(line@) is None,
        },
{
    let cs = chars_of(line);
    let mut start: usize = 0;
    while start < cs.len() && is_whitespace(cs[start])
        invariant
            start <= cs@.len(),
            cs@ == line@,
            forall|j: int| 0 <= j < start ==> is_white_space(#[trigger] cs@[j]),
        decreases cs@.len() - start,
    {
        start = start + 1;
    }
    proof {
        lemma_trim_start_skip(cs@, start as int);
        let t = cs@.skip(start as int);
        if t.len() > 0 {
            assert(t[0] == cs@[start as int]);
            assert(!is_white_space(t[0]));
        }
        assert(trim_start_spec(t) == t);
    }
    if start == cs.len() {
        return None;
    }
    let ghost t = cs@.skip(start as int);
    let mut end: usize = start;
    while end < cs.len() && !is_whitespace(cs[end])
        invariant
            start <= end <= cs@.len(),
            t == cs@.skip(start as int),
            token_end(t, 0) == token_end(t, end - start),
        decreases cs@.len() - end,
    {
        assert(t[end - start] == cs@[end as int]);
        end = end + 1;
    }
    proof {
        if end < cs.len() {
            assert(t[end - start] == cs@[end as int]);
        }
    }
    let word = &cs.as_slice()[start..end];
    let mut w: Vec<char> = Vec::new();
    let mut k: usize = 0;
    while k < word.len()
        invariant
            k <= word@.len(),
            w@ == word@.take(k as int),
        decreases word@.len() - k,
    {
        w.push(word[k]);
        k = k + 1;
        assert(w@ =~= word@.take(k as int));
    }
    assert(w@ =~= t.take(token_end(t, 0)));
    Some(w)
}

/// Whether a module is listed in the lines of `/proc/modules`: some line's first word is its
/// name.
pub fn is_in_proc_modules(lines: &[String], module: &str) -> (r: bool)
    ensures
        r == module_listed(lines@.map_values(|l: String| l@), module@),
{
    let ghost ls = lines@.map_values(|l: String| l@);
    let mc = chars_of(module);
    let mut i: usize = 0;
    while i < lines.len()
        invariant
            i <= lines@.len(),
            mc@ == module@,
            ls == lines@.map_values(|l: String| l@),
            forall|j: int| 0 <= j < i ==> first_word(#[trigger] ls[j]) != Some(module@),
        decreases lines@.len() - i,
    {
        assert(ls[i as int] == lines@[i as int]@);
        match line_first_word(lines[i].as_str()) {
            Some(w) => {
                if chars_eq(w.as_slice(), mc.as_slice()) {
                    assert(first_word(ls[i as int]) == Some(module@));
                    return true;
                }
            },
            None => {},
        }
        i = i + 1;
    }
    false
}

} // verus!
