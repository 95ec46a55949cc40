//! Text helpers: character classes, lower-casing, decimal numbers.

use vstd::prelude::*;

verus! {

/// `String::push` appends the character to the end of the string.
pub assume_specification[ String::push ](s: &mut String, c: char)
    ensures
        final(s)@ == old(s)@.push(c),
;

/// `str`'s `==` holds exactly when both slices hold the same characters.
pub assume_specification[ <str as PartialEq>::eq ](a: &str, b: &str) -> (r: bool)
    ensures
        r == (a@ == b@),
;

/// What `format!("{:?}", text)` writes for a string: the text between double
/// quotes, with the characters escaped that `std` escapes in the `Debug` form
/// of a `str`.
pub uninterp spec fn debug_quoted(text: Seq<char>) -> Seq<char>;

/// Calls `format!` for the `Debug` form of a string. The contract names what
/// comes back (`debug_quoted`); it is a function of the text alone.
#[verifier::external_body]
pub(crate) fn quote(text: &str) -> (r: String)
    ensures
        r@ == debug_quoted(text@),
{
    format!("{:?}", text)
}

/// The characters of `s`, in order.
pub(crate) fn chars_of(s: &str) -> (v: Vec<char>)
    ensures
        v@ == s@,
{
    let mut v: Vec<char> = Vec::new();
    for c in it: s.chars()
        invariant
            v@ == it.seq().take(it.index() as int),
            it.seq() == s@,
    {
        v.push(c);
    }
    v
}

/// The characters `chars[from..to]` as a string.
pub(crate) fn string_of(chars: &Vec<char>, from: usize, to: usize) -> (s: String)
    requires
        from <= to <= chars.len(),
    ensures
        s@ == chars@.subrange(from as int, to as int),
{
    let mut s = String::new();
    let mut i: usize = from;
    while i < to
        invariant
            from <= i <= to <= chars.len(),
            s@ == chars@.subrange(from as int, i as int),
        decreases to - i,
    {
        s.push(chars[i]);
        i += 1;
        assert(s@ =~= chars@.subrange(from as int, i as int));
    }
    s
}

/// `s` followed by `tail`.
pub(crate) fn join(s: &str, tail: &str) -> (r: String)
    ensures
        r@ == s@ + tail@,
{
    let mut r = s.to_owned();
    r.append(tail);
    r
}

pub open spec fn is_upper(c: char) -> bool {
    'A' <= c && c <= 'Z'
}

/// `c` with an ASCII capital letter replaced by its small letter.
pub open spec fn ascii_lower(c: char) -> char {
    if is_upper(c) {
        ((c as u8) + 32) as char
    } else {
        c
    }
}

/// `s` with every ASCII capital letter replaced by its small letter.
pub open spec fn lowercase(s: Seq<char>) -> Seq<char> {
    Seq::new(s.len(), |i: int| ascii_lower(s[i]))
}

pub(crate) fn to_ascii_lower(c: char) -> (r: char)
    ensures
        r == ascii_lower(c),
{
    if 'A' <= c && c <= 'Z' {
        ((c as u8) + 32) as char
    } else {
        c
    }
}

pub fn to_lowercase(s: &str) -> (r: String)
    ensures
        r@ == lowercase(s@),
{
    let chars = chars_of(s);
    let mut r = String::new();
    let mut i: usize = 0;
    while i < chars.len()
        invariant
            i <= chars.len(),
            chars@ == s@,
            r@ == lowercase(s@).take(i as int),
        decreases chars.len() - i,
    {
        r.push(to_ascii_lower(chars[i]));
        i += 1;
        assert(r@ =~= lowercase(s@).take(i as int));
    }
    assert(lowercase(s@).take(i as int) =~= lowercase(s@));
    r
}

pub open spec fn is_digit(c: char) -> bool {
    '0' <= c && c <= '9'
}

/// The character that writes the digit `d`.
pub open spec fn digit_char(d: nat) -> char
    recommends
        d < 10,
{
    (('0' as u8) + d) as char
}

/// The digit that `c` writes.
pub open spec fn digit_of(c: char) -> nat
    recommends
        is_digit(c),
{
    ((c as u8) - ('0' as u8)) as nat
}

/// `n` in decimal, without leading zeros.
pub open spec fn decimal_text(n: nat) -> Seq<char>
    decreases n,
{
    if n < 10 {
        seq![digit_char(n)]
    } else {
        decimal_text(n / 10).push(digit_char(n % 10))
    }
}

pub fn usize_to_text(n: usize) -> (r: String)
    ensures
        r@ == decimal_text(n as nat),
    decreases n,
{
    if n < 10 {
        let mut r = String::new();
        r.push((48u8 + (n as u8)) as char);
        r
    } else {
        let mut r = usize_to_text(n / 10);
        r.push((48u8 + ((n % 10) as u8)) as char);
        r
    }
}

pub open spec fn all_digits(s: Seq<char>) -> bool {
    forall|i: int| 0 <= i < s.len() ==> is_digit(#[trigger] s[i])
}

/// The number that a run of digits writes in decimal.
pub open spec fn digits_value(s: Seq<char>) -> nat
    decreases s.len(),
{
    if s.len() == 0 {
        0
    } else {
        digits_value(s.drop_last()) * 10 + digit_of(s.last())
    }
}

/// The integer that `s` writes: an optional sign, then one digit or more.
pub open spec fn decimal_value(s: Seq<char>) -> Option<int> {
    if s.len() > 0 && (s[0] == '-' || s[0] == '+') {
        let digits = s.skip(1);
        if digits.len() > 0 && all_digits(digits) {
            if s[0] == '-' {
                Some(-(digits_value(digits) as int))
            } else {
                Some(digits_value(digits) as int)
            }
        } else {
            None
        }
    } else if s.len() > 0 && all_digits(s) {
        Some(digits_value(s) as int)
    } else {
        None
    }
}

/// The 64-bit signed integer that `s` writes, if it writes one.
pub open spec fn i64_of_text(s: Seq<char>) -> Option<i64> {
    match decimal_value(s) {
        Some(v) => if i64::MIN <= v <= i64::MAX {
            Some(v as i64)
        } else {
            None
        },
        None => None,
    }
}

/// A longer run of digits writes no smaller a number than its beginning.
pub proof fn lemma_digits_value_grows(s: Seq<char>, n: int)
    requires
        0 <= n <= s.len(),
    ensures
        digits_value(s.take(n)) <= digits_value(s),
    decreases s.len(),
{
    if n == s.len() {
        assert(s.take(n) =~= s);
    } else {
        lemma_digits_value_grows(s.drop_last(), n);
        assert(s.drop_last().take(n) =~= s.take(n));
        assert(digits_value(s.drop_last()) * 10 >= digits_value(s.drop_last())) by (nonlinear_arith);
    }
}

pub fn parse_i64(s: &str) -> (r: Option<i64>)
    ensures
        r == i64_of_text(s@),
{
    let chars = chars_of(s);
    if chars.len() == 0 {
        return None;
    }
    let negative = chars[0] == '-';
    let start: usize = if chars[0] == '-' || chars[0] == '+' {
        1
    } else {
        0
    };
    let ghost digits = chars@.skip(start as int);
    assert(start == 0 ==> digits =~= s@);
    if start == chars.len() {
        return None;
    }
    let mut acc: u128 = 0;
    let mut i: usize = start;
    while i < chars.len()
        invariant
            start <= i <= chars.len(),
            digits == chars@.skip(start as int),
            all_digits(digits.take(i - start)),
            acc == digits_value(digits.take(i - start)),
            acc <= 0x8000_0000_0000_0000,
            chars@ == s@,
            start < chars.len(),
            start == 0 ==> digits == s@,
            start == (if s@[0] == '-' || s@[0] == '+' {
                1int
            } else {
                0int
            }),
        decreases chars.len() - i,
    {
        let c = chars[i];
        if !('0' <= c && c <= '9') {
            assert(!is_digit(digits[i - start]));
            return None;
        }
        let d = ((c as u8) - 48u8) as u128;
        let ghost before = digits.take(i - start);
        let ghost after = digits.take(i + 1 - start);
        assert(after.drop_last() =~= before);
        assert(after.last() == c);
        acc = acc * 10 + d;
        i += 1;
        assert(all_digits(after)) by {
            assert forall|j: int| 0 <= j < after.len() implies is_digit(#[trigger] after[j]) by {
                if j < before.len() {
                    assert(before[j] == after[j]);
                }
            }
        }
        if acc > 0x8000_0000_0000_0000 {
            proof {
                if all_digits(digits) {
                    lemma_digits_value_grows(digits, i - start);
                }
            }
            return None;
        }
    }
    assert(digits.take(i - start) =~= digits);
    if negative {
        Some((-(acc as i128)) as i64)
    } else if acc > 0x7fff_ffff_ffff_ffff {
        None
    } else {
        Some(acc as i64)
    }
}

} // verus!
