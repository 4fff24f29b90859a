//! Unicode character properties and case mapping, which std computes from its Unicode tables.

use vstd::prelude::*;

verus! {

/// Whether a character has the Unicode `Alphabetic` property (`char::is_alphabetic`).
pub uninterp spec fn alphabetic(c: char) -> bool;

/// The Unicode uppercase mapping of a string (`str::to_uppercase`).
pub uninterp spec fn uppercase(s: Seq<char>) -> Seq<char>;

/// Whether a character is an ASCII letter, `A` to `Z` or `a` to `z`.
pub open spec fn ascii_letter(c: char) -> bool {
    (65 <= (c as u32) <= 90) || (97 <= (c as u32) <= 122)
}

/// The ASCII uppercase of a character: `a` to `z` become `A` to `Z`, all else stays.
pub open spec fn ascii_upper_char(c: char) -> char {
    if 97 <= (c as u32) <= 122 {
        ((c as u32) - 32) as char
    } else {
        c
    }
}

/// Whether every character of a string is ASCII.
pub open spec fn all_ascii(s: Seq<char>) -> bool {
    forall|i: int| 0 <= i < s.len() ==> (#[trigger] s[i] as u32) < 128
}

/// The ASCII uppercase of a string, character by character.
pub open spec fn ascii_upper(s: Seq<char>) -> Seq<char> {
    s.map_values(|c: char| ascii_upper_char(c))
}

/// Calls `char::is_alphabetic`. The contract ties the result to the character through the
/// name `alphabetic` and states what std documents for ASCII: of the ASCII characters exactly
/// the letters `A`-`Z` and `a`-`z` are alphabetic. The Unicode table beyond ASCII is not stated.
#[verifier::external_body]
pub(crate) fn is_alphabetic(c: char) -> (r: bool)
    ensures
        r == alphabetic(c),
        (c as u32) < 128 ==> (r <==> ascii_letter(c)),
{
    c.is_alphabetic()
}

/// Calls `str::to_uppercase`. The contract ties the result to the string through the name
/// `uppercase` and states what std documents for ASCII: an ASCII string is uppercased letter by
/// letter, `a`-`z` to `A`-`Z`, all other characters unchanged. The Unicode case mapping beyond
/// ASCII is not stated.
#[verifier::external_body]
pub(crate) fn to_uppercase(s: &str) -> (r: String)
    ensures
        r@ == uppercase(s@),
        all_ascii(s@) ==> r@ == ascii_upper(s@),
{
    s.to_uppercase()
}

/// The index of the first alphabetic character of `s`, if any (`str::find` with
/// `char::is_alphabetic`, counted in characters).
pub open spec fn first_alphabetic(s: Seq<char>) -> Option<int>
    decreases s.len(),
{
    if s.len() == 0 {
        None
    } else if alphabetic(s[0]) {
        Some(0)
    } else {
        match first_alphabetic(s.drop_first()) {
            Some(i) => Some(i + 1),
            None => None,
        }
    }
}

/// The index of the first ASCII letter of `s`, if any.
pub open spec fn first_ascii_letter(s: Seq<char>) -> Option<int>
    decreases s.len(),
{
    if s.len() == 0 {
        None
    } else if ascii_letter(s[0]) {
        Some(0)
    } else {
        match first_ascii_letter(s.drop_first()) {
            Some(i) => Some(i + 1),
            None => None,
        }
    }
}

/// Finds the first alphabetic character of `s`; in an ASCII string that is its first letter.
pub fn find_alphabetic(s: &[char]) -> (r: Option<usize>)
    ensures
        match r {
            Some(i) => first_alphabetic(s@) == Some(i as int) && i < s@.len(),
            None => first_alphabetic(s@) is None,
        },
        all_ascii(s@) ==> first_alphabetic(s@) == first_ascii_letter(s@),
{
    let mut i: usize = 0;
    assert(s@.skip(0) =~= s@);
    while i < s.len()
        invariant
            i <= s@.len(),
            first_alphabetic(s@) == (match first_alphabetic(s@.skip(i as int)) {
                Some(k) => Some(k + i),
                None => None::<int>,
            }),
            all_ascii(s@) ==> first_ascii_letter(s@) == (match first_ascii_letter(s@.skip(i as int)) {
                Some(k) => Some(k + i),
                None => None::<int>,
            }),
        decreases s@.len() - i,
    {
        assert(s@.skip(i as int).drop_first() =~= s@.skip(i + 1));
        assert(s@.skip(i as int)[0] == s@[i as int]);
        if is_alphabetic(s[i]) {
            proof {
                if all_ascii(s@) {
                    assert((s@[i as int] as u32) < 128);
                }
            }
            return Some(i);
        }
        proof {
            if all_ascii(s@) {
                assert((s@[i as int] as u32) < 128);
            }
        }
        i = i + 1;
    }
    assert(s@.skip(i as int) =~= Seq::<char>::empty());
    None
}

/// Every part of an ASCII string is ASCII.
pub(crate) proof fn lemma_ascii_subrange(s: Seq<char>, a: int, b: int)
    requires
        all_ascii(s),
        0 <= a <= b <= s.len(),
    ensures
        all_ascii(s.subrange(a, b)),
{
    assert forall|i: int| 0 <= i < b - a implies (#[trigger] s.subrange(a, b)[i] as u32) < 128 by {
        assert(s.subrange(a, b)[i] == s[a + i]);
    }
}

} // verus!
