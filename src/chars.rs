use vstd::prelude::*;
use vstd::string::StrSliceExecFns;

verus! {

/// Whether `c` has the Unicode Alphabetic property.
pub uninterp spec fn alphabetic_of(c: char) -> bool;

/// Whether `c` is in one of Unicode's numeric general categories.
pub uninterp spec fn numeric_of(c: char) -> bool;

/// Whether `c` is an ASCII character.
pub open spec fn is_ascii_char(c: char) -> bool {
    (c as u32) < 128
}

pub open spec fn is_ascii_letter(c: char) -> bool {
    ('a' <= c && c <= 'z') || ('A' <= c && c <= 'Z')
}

/// Whether `c` counts as a letter: for ASCII exactly a-z and A-Z.
pub open spec fn letter(c: char) -> bool {
    if is_ascii_char(c) {
        is_ascii_letter(c)
    } else {
        alphabetic_of(c)
    }
}

/// Whether `c` counts as a numeral: for ASCII exactly 0-9.
pub open spec fn numeral(c: char) -> bool {
    if is_ascii_char(c) {
        '0' <= c && c <= '9'
    } else {
        numeric_of(c)
    }
}

/// Relies on `char::is_alphabetic`: its answer depends on the character alone;
/// among ASCII characters exactly the letters are alphabetic.
#[verifier::external_body]
pub(crate) fn is_alphabetic(c: char) -> (r: bool)
    ensures
        r == alphabetic_of(c),
        is_ascii_char(c) ==> (r <==> is_ascii_letter(c)),
{
    c.is_alphabetic()
}

/// Relies on `char::is_numeric`: its answer depends on the character alone;
/// among ASCII characters exactly the digits 0-9 are numeric.
#[verifier::external_body]
pub(crate) fn is_numeric(c: char) -> (r: bool)
    ensures
        r == numeric_of(c),
        is_ascii_char(c) ==> (r <==> ('0' <= c && c <= '9')),
{
    c.is_numeric()
}

/// Relies on `String::push`: it appends the character at the end.
#[verifier::external_body]
pub(crate) fn push_char(s: &mut String, c: char)
    ensures
        final(s)@ == old(s)@.push(c),
{
    s.push(c)
}

/// The value of `c` as a digit of radix 36 ('0'-'9', then 'a'-'z' or 'A'-'Z'),
/// the scale by which `char::is_digit` decides.
pub open spec fn digit_value(c: char) -> Option<u32> {
    if '0' <= c && c <= '9' {
        Some((c as u32 - '0' as u32) as u32)
    } else if 'a' <= c && c <= 'z' {
        Some((c as u32 - 'a' as u32 + 10) as u32)
    } else if 'A' <= c && c <= 'Z' {
        Some((c as u32 - 'A' as u32 + 10) as u32)
    } else {
        None
    }
}

/// Whether `c` is a digit in base `radix`.
pub open spec fn is_digit_of(c: char, radix: u32) -> bool {
    match digit_value(c) {
        Some(d) => d < radix,
        None => false,
    }
}

pub fn digit_of(c: char) -> (r: Option<u32>)
    ensures
        r == digit_value(c),
{
    if '0' <= c && c <= '9' {
        Some(c as u32 - '0' as u32)
    } else if 'a' <= c && c <= 'z' {
        Some(c as u32 - 'a' as u32 + 10)
    } else if 'A' <= c && c <= 'Z' {
        Some(c as u32 - 'A' as u32 + 10)
    } else {
        None
    }
}

pub fn is_digit(c: char, radix: u32) -> (r: bool)
    ensures
        r == is_digit_of(c, radix),
{
    match digit_of(c) {
        Some(d) => d < radix,
        None => false,
    }
}

/// A string holding the characters of `chars`.
pub fn string_of(chars: &Vec<char>) -> (r: String)
    ensures
        r@ == chars@,
{
    let mut s = String::new();
    let mut i: usize = 0;
    while i < chars.len()
        invariant
            i <= chars@.len(),
            s@ == chars@.subrange(0, i as int),
        decreases chars@.len() - i,
    {
        push_char(&mut s, chars[i]);
        i = i + 1;
        assert(s@ =~= chars@.subrange(0, i as int));
    }
    assert(s@ =~= chars@);
    s
}

/// Whether `chars` spells `lit` exactly.
pub fn spells(chars: &Vec<char>, lit: &str) -> (r: bool)
    ensures
        r == (chars@ == lit@),
{
    let n = lit.unicode_len();
    if n != chars.len() {
        return false;
    }
    let mut i: usize = 0;
    while i < n
        invariant
            n == lit@.len(),
            n == chars@.len(),
            i <= n,
            chars@.subrange(0, i as int) == lit@.subrange(0, i as int),
        decreases n - i,
    {
        if chars[i] != lit.get_char(i) {
            assert(chars@[i as int] != lit@[i as int]);
            return false;
        }
        i = i + 1;
        assert(chars@.subrange(0, i as int) =~= lit@.subrange(0, i as int));
    }
    assert(chars@ =~= chars@.subrange(0, n as int));
    assert(lit@ =~= lit@.subrange(0, n as int));
    true
}

} // verus!
