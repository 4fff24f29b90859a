//! Character and string helpers shared by the parsers and formatters.

use vstd::prelude::*;

verus! {

/// The Unicode `White_Space` property, which `char::is_whitespace` tests.
pub open spec fn is_white_space(c: char) -> bool {
    let x = c as u32;
    ||| 0x9 <= x <= 0xd
    ||| x == 0x20
    ||| x == 0x85
    ||| x == 0xa0
    ||| x == 0x1680
    ||| 0x2000 <= x <= 0x200a
    ||| x == 0x2028
    ||| x == 0x2029
    ||| x == 0x202f
    ||| x == 0x205f
    ||| x == 0x3000
}

/// Tests a character for the Unicode `White_Space` property.
pub fn is_whitespace(c: char) -> (b: bool)
    ensures
        b == is_white_space(c),
{
    let x = c as u32;
    (0x9 <= x && x <= 0xd) || x == 0x20 || x == 0x85 || x == 0xa0 || x == 0x1680 || (0x2000 <= x
        && x <= 0x200a) || x == 0x2028 || x == 0x2029 || x == 0x202f || x == 0x205f || x == 0x3000
}

/// The characters of a string, in order.
pub fn chars_of(s: &str) -> (v: Vec<char>)
    ensures
        v@ == s@,
{
    let mut v: Vec<char> = Vec::new();
    for c in it: s.chars()
        invariant
            v@ == it.seq().take(it.index() as int),
    {
        v.push(c);
    }
    v
}

} // verus!

verus! {

/// `s` with its leading white space removed.
pub open spec fn trim_start_spec(s: Seq<char>) -> Seq<char>
    decreases s.len(),
{
    if s.len() > 0 && is_white_space(s[0]) {
        trim_start_spec(s.drop_first())
    } else {
        s
    }
}

/// `s` with its trailing white space removed.
pub open spec fn trim_end_spec(s: Seq<char>) -> Seq<char>
    decreases s.len(),
{
    if s.len() > 0 && is_white_space(s.last()) {
        trim_end_spec(s.drop_last())
    } else {
        s
    }
}

/// What `str::trim` gives: `s` without leading and trailing white space.
pub open spec fn trim_spec(s: Seq<char>) -> Seq<char> {
    trim_end_spec(trim_start_spec(s))
}

proof fn lemma_trim_start_skip(s: Seq<char>, i: int)
    requires
        0 <= i <= s.len(),
        forall|j: int| 0 <= j < i ==> is_white_space(#[trigger] s[j]),
    ensures
        trim_start_spec(s) == trim_start_spec(s.skip(i)),
    decreases i,
{
    if i > 0 {
        assert(s.skip(1) =~= s.drop_first());
        lemma_trim_start_skip(s.drop_first(), i - 1);
        assert(s.drop_first().skip(i - 1) =~= s.skip(i));
    } else {
        assert(s.skip(0) =~= s);
    }
}

proof fn lemma_trim_end_take(s: Seq<char>, i: int)
    requires
        0 <= i <= s.len(),
        forall|j: int| i <= j < s.len() ==> is_white_space(#[trigger] s[j]),
    ensures
        trim_end_spec(s) == trim_end_spec(s.take(i)),
    decreases s.len() - i,
{
    if i < s.len() {
        assert(s.take(s.len() - 1) =~= s.drop_last());
        lemma_trim_end_take(s.drop_last(), i);
        assert(s.drop_last().take(i) =~= s.take(i));
    } else {
        assert(s.take(i) =~= s);
    }
}

/// The bounds `(start, end)` of `s` without leading and trailing white space.
pub fn trim_bounds(s: &[char]) -> (r: (usize, usize))
    ensures
        r.0 <= r.1 <= s@.len(),
        s@.subrange(r.0 as int, r.1 as int) == trim_spec(s@),
{
    let mut start: usize = 0;
    while start < s.len() && is_whitespace(s[start])
        invariant
            start <= s@.len(),
            forall|j: int| 0 <= j < start ==> is_white_space(#[trigger] s@[j]),
        decreases s@.len() - start,
    {
        start = start + 1;
    }
    proof {
        lemma_trim_start_skip(s@, start as int);
    }
    let ghost t = s@.skip(start as int);
    assert(trim_start_spec(t) == t);
    let mut end: usize = s.len();
    while end > start && is_whitespace(s[end - 1])
        invariant
            start <= end <= s@.len(),
            forall|j: int| end <= j < s@.len() ==> is_white_space(#[trigger] s@[j]),
        decreases end,
    {
        end = end - 1;
    }
    proof {
        lemma_trim_end_take(t, end - start);
        assert(t.take(end - start) =~= s@.subrange(start as int, end as int));
    }
    (start, end)
}

/// The characters of `s` without leading and trailing white space.
pub fn trim_chars(s: &[char]) -> (v: Vec<char>)
    ensures
        v@ == trim_spec(s@),
{
    let (a, b) = trim_bounds(s);
    let mut v: Vec<char> = Vec::new();
    let mut i = a;
    while i < b
        invariant
            a <= i <= b <= s@.len(),
            v@ == s@.subrange(a as int, i as int),
        decreases b - i,
    {
        v.push(s[i]);
        i = i + 1;
        assert(v@ =~= s@.subrange(a as int, i as int));
    }
    v
}

} // verus!

verus! {

/// An ASCII decimal digit.
pub open spec fn is_digit_spec(c: char) -> bool {
    48 <= (c as u32) <= 57
}

/// The value of an ASCII decimal digit.
pub open spec fn digit_value(c: char) -> int {
    (c as u32) - 48
}

/// Every character of `s` is an ASCII decimal digit.
pub open spec fn all_digits(s: Seq<char>) -> bool {
    forall|i: int| 0 <= i < s.len() ==> is_digit_spec(#[trigger] s[i])
}

/// The value of a string of decimal digits, most significant first.
pub open spec fn decimal_value(s: Seq<char>) -> int
    decreases s.len(),
{
    if s.len() == 0 {
        0
    } else {
        decimal_value(s.drop_last()) * 10 + digit_value(s.last())
    }
}

/// What `str::parse` gives for an unsigned integer type whose largest value is `max`:
/// an optional `+`, then one or more ASCII digits, of a value at most `max`.
pub open spec fn parse_unsigned_spec(s: Seq<char>, max: int) -> Option<int> {
    let d = if s.len() > 0 && s[0] == '+' {
        s.drop_first()
    } else {
        s
    };
    if d.len() == 0 || !all_digits(d) || decimal_value(d) > max {
        None
    } else {
        Some(decimal_value(d))
    }
}

/// What `str::parse` gives for a signed integer type with range `min..=max`:
/// an optional `+` or `-`, then one or more ASCII digits, of a value in range.
pub open spec fn parse_signed_spec(s: Seq<char>, min: int, max: int) -> Option<int> {
    let neg = s.len() > 0 && s[0] == '-';
    let d = if s.len() > 0 && (s[0] == '+' || s[0] == '-') {
        s.drop_first()
    } else {
        s
    };
    let v = if neg {
        -decimal_value(d)
    } else {
        decimal_value(d)
    };
    if d.len() == 0 || !all_digits(d) || v < min || v > max {
        None
    } else {
        Some(v)
    }
}

pub(crate) proof fn lemma_decimal_value_nonneg(s: Seq<char>)
    requires
        all_digits(s),
    ensures
        decimal_value(s) >= 0,
    decreases s.len(),
{
    if s.len() > 0 {
        assert(all_digits(s.drop_last()));
        lemma_decimal_value_nonneg(s.drop_last());
        assert(is_digit_spec(s[s.len() - 1]));
    }
}

/// A parsed unsigned value lies between zero and the type's largest value.
pub proof fn lemma_parse_unsigned_range(s: Seq<char>, max: int)
    ensures
        parse_unsigned_spec(s, max) matches Some(v) ==> 0 <= v <= max,
{
    let d = if s.len() > 0 && s[0] == '+' {
        s.drop_first()
    } else {
        s
    };
    if d.len() > 0 && all_digits(d) {
        lemma_decimal_value_nonneg(d);
    }
}

proof fn lemma_decimal_value_prefix(s: Seq<char>, i: int)
    requires
        all_digits(s),
        0 <= i <= s.len(),
    ensures
        decimal_value(s.take(i)) <= decimal_value(s),
    decreases s.len() - i,
{
    if i < s.len() {
        assert(s.take(s.len() - 1) =~= s.drop_last());
        assert(all_digits(s.drop_last()));
        lemma_decimal_value_prefix(s.drop_last(), i);
        assert(s.drop_last().take(i) =~= s.take(i));
        lemma_decimal_value_nonneg(s.drop_last());
        assert(is_digit_spec(s[s.len() - 1]));
    } else {
        assert(s.take(i) =~= s);
    }
}

/// The value of the digits of `d`, or `None` when one is not a digit or the value exceeds `max`.
fn digits_value(d: &[char], max: u64) -> (r: Option<u64>)
    ensures
        match r {
            Some(v) => d@.len() > 0 && all_digits(d@) && decimal_value(d@) == v as int && v <= max,
            None => d@.len() == 0 || !all_digits(d@) || decimal_value(d@) > max,
        },
{
    if d.len() == 0 {
        return None;
    }
    let mut acc: u64 = 0;
    let mut i: usize = 0;
    while i < d.len()
        invariant
            i <= d@.len(),
            all_digits(d@.take(i as int)),
            acc as int == decimal_value(d@.take(i as int)),
            acc <= max,
        decreases d@.len() - i,
    {
        let c = d[i];
        let x = c as u32;
        if x < 48 || x > 57 {
            assert(!is_digit_spec(d@[i as int]));
            return None;
        }
        let dv = (x - 48) as u64;
        assert(d@.take(i + 1).drop_last() =~= d@.take(i as int));
        assert(all_digits(d@.take(i + 1)));
        if dv > max || acc > (max - dv) / 10 {
            proof {
                assert(decimal_value(d@.take(i + 1)) == acc * 10 + dv);
                if dv <= max {
                    assert(acc * 10 + dv > max) by (nonlinear_arith)
                        requires
                            acc > (max - dv) / 10,
                            dv <= max,
                    ;
                }
                let ghost j = i + 1;
                if all_digits(d@) {
                    lemma_decimal_value_prefix(d@, j as int);
                }
            }
            return None;
        }
        assert(acc * 10 + dv <= max) by (nonlinear_arith)
            requires
                acc <= (max - dv) / 10,
                dv <= max,
        ;
        acc = acc * 10 + dv;
        i = i + 1;
    }
    assert(d@.take(d@.len() as int) =~= d@);
    Some(acc)
}

} // verus!

verus! {

/// Parses an unsigned decimal integer as `str::parse` does for a type whose largest value is `max`.
pub fn parse_unsigned(s: &[char], max: u64) -> (r: Option<u64>)
    ensures
        match r {
            Some(v) => parse_unsigned_spec(s@, max as int) == Some(v as int),
            None => parse_unsigned_spec(s@, max as int) is None,
        },
{
    if s.len() > 0 && s[0] == '+' {
        let d = &s[1..s.len()];
        assert(d@ =~= s@.drop_first());
        digits_value(d, max)
    } else {
        digits_value(s, max)
    }
}

/// Parses a signed decimal integer as `str::parse` does for a type with range `min..=max`.
pub fn parse_signed(s: &[char], min: i64, max: i64) -> (r: Option<i64>)
    requires
        min < 0 <= max,
    ensures
        match r {
            Some(v) => parse_signed_spec(s@, min as int, max as int) == Some(v as int),
            None => parse_signed_spec(s@, min as int, max as int) is None,
        },
{
    let neg = s.len() > 0 && s[0] == '-';
    let d = if s.len() > 0 && (s[0] == '+' || s[0] == '-') {
        let d = &s[1..s.len()];
        assert(d@ =~= s@.drop_first());
        d
    } else {
        s
    };
    if neg {
        let lim = (-(min + 1)) as u64 + 1;
        match digits_value(d, lim) {
            Some(v) => {
                if v == lim {
                    Some(min)
                } else {
                    Some(-(v as i64))
                }
            },
            None => None,
        }
    } else {
        match digits_value(d, max as u64) {
            Some(v) => Some(v as i64),
            None => None,
        }
    }
}

/// The decimal digit character of a value below ten.
pub open spec fn digit_char(n: int) -> char {
    (n + 48) as char
}

/// The decimal representation of `n`, without leading zeros.
pub open spec fn decimal_spec(n: nat) -> Seq<char>
    decreases n,
{
    if n < 10 {
        seq![digit_char(n as int)]
    } else {
        decimal_spec(n / 10).push(digit_char((n % 10) as int))
    }
}

/// `n` copies of `c`.
pub open spec fn repeat_spec(c: char, n: nat) -> Seq<char> {
    Seq::new(n, |i: int| c)
}

/// `s` padded on the left with `c` to at least `width` characters (`{:>width$}` for spaces).
pub open spec fn pad_left_spec(s: Seq<char>, width: nat, c: char) -> Seq<char> {
    if s.len() >= width {
        s
    } else {
        repeat_spec(c, (width - s.len()) as nat) + s
    }
}

/// `s` padded on the right with spaces to at least `width` characters (`{:<width$}`).
pub open spec fn pad_right_spec(s: Seq<char>, width: nat) -> Seq<char> {
    if s.len() >= width {
        s
    } else {
        s + repeat_spec(' ', (width - s.len()) as nat)
    }
}

/// How `{:0width$}` prints a signed integer: the sign, then zeros, then the digits.
pub open spec fn zero_padded_spec(n: int, width: nat) -> Seq<char> {
    if n < 0 {
        seq!['-'] + pad_left_spec(decimal_spec((-n) as nat), if width >= 1 {
            (width - 1) as nat
        } else {
            0
        }, '0')
    } else {
        pad_left_spec(decimal_spec(n as nat), width, '0')
    }
}

/// Appends one character to a string.
#[verifier::external_body]
pub(crate) fn push_char(s: &mut String, c: char)
    ensures
        final(s)@ == old(s)@.push(c),
{
    s.push(c);
}

/// Appends characters to a string.
pub fn push_chars(s: &mut String, v: &[char])
    ensures
        final(s)@ == old(s)@ + v@,
{
    let mut i: usize = 0;
    while i < v.len()
        invariant
            i <= v@.len(),
            s@ == old(s)@ + v@.take(i as int),
        decreases v@.len() - i,
    {
        push_char(s, v[i]);
        i = i + 1;
        assert(old(s)@ + v@.take(i as int) =~= (old(s)@ + v@.take(i - 1)).push(v@[i - 1]));
    }
    assert(v@.take(v@.len() as int) =~= v@);
}

/// A string made of the given characters.
pub fn string_of(v: &[char]) -> (s: String)
    ensures
        s@ == v@,
{
    let mut s = String::new();
    push_chars(&mut s, v);
    assert(Seq::<char>::empty() + v@ =~= v@);
    s
}

/// Appends `n` copies of `c` to a string.
pub fn push_repeat(s: &mut String, c: char, n: usize)
    ensures
        final(s)@ == old(s)@ + repeat_spec(c, n as nat),
{
    let mut i: usize = 0;
    while i < n
        invariant
            i <= n,
            s@ == old(s)@ + repeat_spec(c, i as nat),
        decreases n - i,
    {
        push_char(s, c);
        i = i + 1;
        assert(old(s)@ + repeat_spec(c, i as nat) =~= (old(s)@ + repeat_spec(c, (i - 1) as nat)).push(c));
    }
}

/// `n` copies of `c`, as a string (`str::repeat` of a one-character string).
pub fn repeat_char(c: char, n: usize) -> (s: String)
    ensures
        s@ == repeat_spec(c, n as nat),
{
    let mut s = String::new();
    push_repeat(&mut s, c, n);
    assert(Seq::<char>::empty() + repeat_spec(c, n as nat) =~= repeat_spec(c, n as nat));
    s
}

/// The decimal digits of `n`.
pub fn decimal_chars(n: u64) -> (v: Vec<char>)
    ensures
        v@ == decimal_spec(n as nat),
    decreases n,
{
    if n < 10 {
        let c = ((n as u32) + 48) as u8 as char;
        let mut v = Vec::new();
        v.push(c);
        assert(v@ =~= seq![digit_char(n as int)]);
        v
    } else {
        let mut v = decimal_chars(n / 10);
        let c = (((n % 10) as u32) + 48) as u8 as char;
        v.push(c);
        v
    }
}

/// The decimal representation of `n` (`n.to_string()`).
pub fn decimal_string(n: u64) -> (s: String)
    ensures
        s@ == decimal_spec(n as nat),
{
    let v = decimal_chars(n);
    string_of(v.as_slice())
}

/// Appends `v` padded on the left with `c` to `width` characters.
pub fn push_padded_left(s: &mut String, v: &[char], width: usize, c: char)
    ensures
        final(s)@ == old(s)@ + pad_left_spec(v@, width as nat, c),
{
    if v.len() < width {
        push_repeat(s, c, width - v.len());
    }
    push_chars(s, v);
    assert(old(s)@ + pad_left_spec(v@, width as nat, c) =~= s@);
}

/// Appends `v` padded on the right with spaces to `width` characters.
pub fn push_padded_right(s: &mut String, v: &[char], width: usize)
    ensures
        final(s)@ == old(s)@ + pad_right_spec(v@, width as nat),
{
    push_chars(s, v);
    if v.len() < width {
        push_repeat(s, ' ', width - v.len());
    }
    assert(old(s)@ + pad_right_spec(v@, width as nat) =~= s@);
}

/// Appends a signed integer printed with `{:0width$}`.
pub fn push_zero_padded(s: &mut String, n: i64, width: usize)
    ensures
        final(s)@ == old(s)@ + zero_padded_spec(n as int, width as nat),
{
    if n < 0 {
        push_char(s, '-');
        let m: u64 = if n == i64::MIN {
            0x8000_0000_0000_0000u64
        } else {
            (-n) as u64
        };
        let d = decimal_chars(m);
        let w = if width >= 1 {
            width - 1
        } else {
            0
        };
        push_padded_left(s, d.as_slice(), w, '0');
        assert(old(s)@ + zero_padded_spec(n as int, width as nat) =~= s@);
    } else {
        let d = decimal_chars(n as u64);
        push_padded_left(s, d.as_slice(), width, '0');
    }
}

/// Whether two character sequences are equal.
pub fn chars_eq(a: &[char], b: &[char]) -> (r: bool)
    ensures
        r == (a@ == b@),
{
    if a.len() != b.len() {
        return false;
    }
    let mut i: usize = 0;
    while i < a.len()
        invariant
            i <= a@.len() == b@.len(),
            forall|j: int| 0 <= j < i ==> a@[j] == b@[j],
        decreases a@.len() - i,
    {
        if a[i] != b[i] {
            return false;
        }
        i = i + 1;
    }
    assert(a@ =~= b@);
    true
}

/// Whether a string equals a character sequence.
pub fn str_eq_chars(a: &str, b: &[char]) -> (r: bool)
    ensures
        r == (a@ == b@),
{
    let v = chars_of(a);
    chars_eq(v.as_slice(), b)
}

/// Whether two strings are equal.
pub fn str_eq(a: &str, b: &str) -> (r: bool)
    ensures
        r == (a@ == b@),
{
    let v = chars_of(b);
    str_eq_chars(a, v.as_slice())
}

} // verus!

verus! {

/// Lexicographic order of character sequences by code point (the order of `str`'s `Ord`,
/// which compares UTF-8 bytes).
pub open spec fn chars_lt(a: Seq<char>, b: Seq<char>) -> bool
    decreases a.len(),
{
    if a.len() == 0 {
        b.len() > 0
    } else if b.len() == 0 {
        false
    } else if a[0] != b[0] {
        (a[0] as u32) < (b[0] as u32)
    } else {
        chars_lt(a.drop_first(), b.drop_first())
    }
}

/// `chars_lt` is transitive.
pub proof fn lemma_chars_lt_transitive(a: Seq<char>, b: Seq<char>, c: Seq<char>)
    requires
        chars_lt(a, b),
        chars_lt(b, c),
    ensures
        chars_lt(a, c),
    decreases a.len(),
{
    if a.len() > 0 && b.len() > 0 && c.len() > 0 && a[0] == b[0] && b[0] == c[0] {
        lemma_chars_lt_transitive(a.drop_first(), b.drop_first(), c.drop_first());
    }
}

/// `chars_lt` is irreflexive.
pub proof fn lemma_chars_lt_irreflexive(a: Seq<char>)
    ensures
        !chars_lt(a, a),
    decreases a.len(),
{
    if a.len() > 0 {
        lemma_chars_lt_irreflexive(a.drop_first());
    }
}

/// Whether `a` sorts strictly before `b`.
pub fn chars_less(a: &[char], b: &[char]) -> (r: bool)
    ensures
        r == chars_lt(a@, b@),
{
    let mut i: usize = 0;
    assert(a@.skip(0) =~= a@);
    assert(b@.skip(0) =~= b@);
    while i < a.len() && i < b.len() && a[i] == b[i]
        invariant
            i <= a@.len(),
            i <= b@.len(),
            chars_lt(a@, b@) == chars_lt(a@.skip(i as int), b@.skip(i as int)),
        decreases a@.len() - i,
    {
        assert(a@.skip(i as int).drop_first() =~= a@.skip(i + 1));
        assert(b@.skip(i as int).drop_first() =~= b@.skip(i + 1));
        i = i + 1;
    }
    if i < a.len() && i < b.len() {
        assert(a@.skip(i as int)[0] == a@[i as int]);
        assert(b@.skip(i as int)[0] == b@[i as int]);
    }
    if i == a.len() {
        i < b.len()
    } else if i == b.len() {
        false
    } else {
        (a[i] as u32) < (b[i] as u32)
    }
}

} // verus!

verus! {

/// `prefix`, then `rest`, as a string.
pub fn concat2(prefix: &str, rest: &[char]) -> (s: String)
    ensures
        s@ == prefix@ + rest@,
{
    let mut s = String::from_str(prefix);
    push_chars(&mut s, rest);
    s
}

/// `prefix`, then `middle`, then `suffix`, as a string.
pub fn concat3(prefix: &str, middle: &[char], suffix: &str) -> (s: String)
    ensures
        s@ == prefix@ + middle@ + suffix@,
{
    let mut s = String::from_str(prefix);
    push_chars(&mut s, middle);
    s.append(suffix);
    s
}

/// The pieces of `s` between occurrences of `c`, scanning left to right (`str::split`).
pub open spec fn split_spec(s: Seq<char>, c: char) -> Seq<Seq<char>>
    decreases s.len(),
{
    if s.len() == 0 {
        seq![Seq::empty()]
    } else {
        let p = split_spec(s.drop_last(), c);
        if s.last() == c {
            p.push(Seq::empty())
        } else {
            p.update(p.len() - 1, p.last().push(s.last()))
        }
    }
}

/// `split_spec` always yields at least one piece.
pub proof fn lemma_split_nonempty(s: Seq<char>, c: char)
    ensures
        split_spec(s, c).len() >= 1,
    decreases s.len(),
{
    if s.len() > 0 {
        lemma_split_nonempty(s.drop_last(), c);
    }
}

/// Splits a character sequence at every occurrence of `c`.
pub fn split_chars(s: &[char], c: char) -> (r: Vec<Vec<char>>)
    ensures
        r@.len() == split_spec(s@, c).len(),
        forall|k: int| 0 <= k < r@.len() ==> (#[trigger] r@[k])@ == split_spec(s@, c)[k],
{
    let mut parts: Vec<Vec<char>> = Vec::new();
    let mut cur: Vec<char> = Vec::new();
    let mut i: usize = 0;
    while i < s.len()
        invariant
            i <= s@.len(),
            parts@.len() + 1 == split_spec(s@.take(i as int), c).len(),
            forall|k: int| 0 <= k < parts@.len() ==> (#[trigger] parts@[k])@ == split_spec(s@.take(i as int), c)[k],
            cur@ == split_spec(s@.take(i as int), c).last(),
        decreases s@.len() - i,
    {
        proof {
            assert(s@.take(i + 1).drop_last() =~= s@.take(i as int));
            lemma_split_nonempty(s@.take(i as int), c);
        }
        if s[i] == c {
            parts.push(cur);
            cur = Vec::new();
        } else {
            cur.push(s[i]);
        }
        i = i + 1;
    }
    assert(s@.take(s@.len() as int) =~= s@);
    proof {
        lemma_split_nonempty(s@, c);
    }
    parts.push(cur);
    parts
}

} // verus!
