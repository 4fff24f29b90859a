//! Panel logic: reading the input forms, reacting to keys, and the footer shortcuts.

pub mod legacy;
pub mod server;
pub mod session;
pub mod tcp_benchmark;
pub mod udp_benchmark;

use vstd::prelude::*;

use crate::text::{chars_of, is_digit_spec, parse_unsigned, parse_unsigned_spec, string_of, trim_chars, trim_spec};
use crate::tui::footer::FooterItem;
use crate::tui::input::{
    key_index, lemma_text_after_list_key, list_after_key, nth_focusable_key, text_after_key, text_under,
    PanelInputEntry,
};
use crate::tui::key::Key;

verus! {

/// Panels that contribute footer shortcuts.
pub trait PanelFooter {
    /// The shortcuts for the panel's current state.
    fn footer_items(&self) -> Vec<FooterItem>;
}

/// Where a benchmark panel is in its cycle.
#[derive(Debug, Clone, Copy, PartialEq, Eq, Structural)]
pub enum BenchmarkPhase {
    Idle,
    Running,
    Done,
    Error,
}

/// What a panel does with a key.
#[derive(Debug, Clone, Copy, PartialEq, Eq, Structural)]
pub enum PanelCommand {
    /// Read the form and start the task.
    Start,
    /// Go back to the idle form, clearing the log.
    Reset,
    /// Stop the running task.
    Stop,
    /// Hand the key to the form, if the form allows it.
    Edit(Key),
    /// Nothing to do.
    Ignore,
}

/// The number of bytes of a text in UTF-8 (what `str::len` counts).
pub open spec fn byte_len(s: Seq<char>) -> nat {
    vstd::utf8::encode_utf8(s).len()
}

/// The key of an optional entry key, empty when there is none.
pub open spec fn key_text(k: Option<&'static str>) -> Seq<char> {
    match k {
        Some(s) => s@,
        None => Seq::empty(),
    }
}

/// What `text.trim().parse::<u16>()` gives.
pub open spec fn u16_field(t: Seq<char>) -> Option<u16> {
    match parse_unsigned_spec(trim_spec(t), 65535) {
        Some(v) => Some(v as u16),
        None => None,
    }
}

/// Reads a field as `text.trim().parse::<u16>()` does.
pub fn parse_u16_field(text: &str) -> (r: Option<u16>)
    ensures
        r == u16_field(text@),
{
    let cs = chars_of(text);
    let t = trim_chars(cs.as_slice());
    match parse_unsigned(t.as_slice(), 65535) {
        Some(v) => Some(v as u16),
        None => None,
    }
}

/// The trimmed text of a field.
pub fn trimmed(text: &str) -> (r: String)
    ensures
        r@ == trim_spec(text@),
{
    let cs = chars_of(text);
    let t = trim_chars(cs.as_slice());
    string_of(t.as_slice())
}

/// Whether a character is an ASCII digit.
pub fn is_ascii_digit(c: char) -> (r: bool)
    ensures
        r == is_digit_spec(c),
{
    '0' <= c && c <= '9'
}

/// The number of bytes a character takes in UTF-8.
fn utf8_width(c: char) -> (r: usize)
    ensures
        r == vstd::utf8::encode_scalar(c as u32).len(),
{
    let v = c as u32;
    if v <= 0x7F {
        1
    } else if v <= 0x7FF {
        2
    } else if v <= 0xFFFF && !(0xD800 <= v && v <= 0xDFFF) {
        3
    } else {
        4
    }
}

/// Whether a text takes fewer than `limit` bytes in UTF-8 (`text.len() < limit`).
pub fn byte_len_below(text: &str, limit: usize) -> (r: bool)
    requires
        limit <= usize::MAX - 4,
    ensures
        r == (byte_len(text@) < limit),
{
    let cs = chars_of(text);
    let mut acc: usize = 0;
    let mut i: usize = cs.len();
    while i > 0
        invariant
            i <= cs@.len(),
            cs@ == text@,
            limit <= usize::MAX - 4,
            acc == (if byte_len(cs@.skip(i as int)) < limit { byte_len(cs@.skip(i as int)) } else { limit as nat }),
        decreases i,
    {
        let w = utf8_width(cs[i - 1]);
        proof {
            let t = cs@.skip(i - 1);
            assert(t.drop_first() =~= cs@.skip(i as int));
            assert(t[0] == cs@[i - 1]);
        }
        acc = if acc + w < limit { acc + w } else { limit };
        i = i - 1;
    }
    assert(cs@.skip(0) =~= cs@);
    acc < limit
}

/// The UTF-8 bytes of two texts put together are the bytes of the first, then of the second.
proof fn lemma_encode_concat(a: Seq<char>, b: Seq<char>)
    ensures
        vstd::utf8::encode_utf8(a + b) == vstd::utf8::encode_utf8(a) + vstd::utf8::encode_utf8(b),
    decreases a.len(),
{
    if a.len() > 0 {
        assert((a + b).drop_first() =~= a.drop_first() + b);
        assert((a + b)[0] == a[0]);
        lemma_encode_concat(a.drop_first(), b);
        assert(vstd::utf8::encode_utf8(a + b) =~= vstd::utf8::encode_utf8(a) + vstd::utf8::encode_utf8(b));
    } else {
        assert(a + b =~= b);
        assert(vstd::utf8::encode_utf8(a) + vstd::utf8::encode_utf8(b) =~= vstd::utf8::encode_utf8(b));
    }
}

/// Appending an ASCII character adds one byte; appending any character adds at least one.
pub proof fn lemma_byte_len_push(s: Seq<char>, c: char)
    ensures
        byte_len(s.push(c)) >= byte_len(s) + 1,
        (c as u32) < 128 ==> byte_len(s.push(c)) == byte_len(s) + 1,
{
    lemma_encode_concat(s, seq![c]);
    assert(s.push(c) =~= s + seq![c]);
    assert(seq![c].drop_first() =~= Seq::<char>::empty());
    reveal_with_fuel(vstd::utf8::encode_utf8, 2);
    assert(vstd::utf8::encode_utf8(Seq::<char>::empty()) =~= Seq::<u8>::empty());
    assert(vstd::utf8::encode_utf8(seq![c]) =~= vstd::utf8::encode_scalar(c as u32));
}

/// Removing the last character never makes a text longer in bytes.
pub proof fn lemma_byte_len_drop_last(s: Seq<char>)
    requires
        s.len() > 0,
    ensures
        byte_len(s.drop_last()) < byte_len(s),
{
    lemma_byte_len_push(s.drop_last(), s.last());
    assert(s.drop_last().push(s.last()) =~= s);
}

/// A key keeps the text under `field` within `limit` bytes when the form lets a character reach
/// that field only while it is shorter than `limit` and only if the character is ASCII.
pub proof fn lemma_field_bound_kept(
    old: Seq<PanelInputEntry>,
    of: nat,
    new: Seq<PanelInputEntry>,
    nf: nat,
    key: Key,
    field: Seq<char>,
    limit: nat,
)
    requires
        list_after_key(old, of, new, nf, key),
        byte_len(text_under(old, field)) <= limit,
        forall|c: char| key == Key::Char(c) && key_text(nth_focusable_key(old, of, 0)) == field ==> (c as u32)
            < 128 && byte_len(text_under(old, field)) < limit,
    ensures
        byte_len(text_under(new, field)) <= limit,
{
    lemma_text_after_list_key(old, of, new, nf, key, field);
    let t = text_under(old, field);
    if text_under(new, field) != t {
        assert(text_under(new, field) == text_after_key(t, key));
        match key {
            Key::Char(c) => {
                let i = key_index(old, field, 0)->0;
                assert(key_text(nth_focusable_key(old, of, 0)) == old[i].key@);
                lemma_byte_len_push(t, c);
            },
            Key::Backspace => {
                if t.len() > 0 {
                    lemma_byte_len_drop_last(t);
                }
            },
            _ => {},
        }
    }
}

/// Whether the text under `key` has fewer than `limit` bytes.
pub open spec fn shorter_than(es: Seq<PanelInputEntry>, key: Seq<char>, limit: nat) -> bool {
    byte_len(text_under(es, key)) < limit
}

} // verus!
