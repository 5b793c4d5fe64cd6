//! Character-level helpers: case mapping, decimal digits and decimal numerals.
use vstd::prelude::*;

verus! {

/// The characters that `char::to_uppercase` yields for `c`.
pub uninterp spec fn upper_of_char(c: char) -> Seq<char>;

/// The characters that `char::to_lowercase` yields for `c`.
pub uninterp spec fn lower_of_char(c: char) -> Seq<char>;

/// The string that `str::to_uppercase` returns for `s`.
pub uninterp spec fn upper_of_str(s: Seq<char>) -> Seq<char>;

/// Relies on `char::to_uppercase`: the upper-case mapping of one character,
/// collected into a string; it depends on the character alone.
#[verifier::external_body]
pub(crate) fn char_to_upper(c: char) -> (r: String)
    ensures
        r@ == upper_of_char(c),
{
    c.to_uppercase().collect()
}

/// Relies on `char::to_lowercase`: the lower-case mapping of one character,
/// collected into a string; it depends on the character alone.
#[verifier::external_body]
pub(crate) fn char_to_lower(c: char) -> (r: String)
    ensures
        r@ == lower_of_char(c),
{
    c.to_lowercase().collect()
}

/// Relies on `str::to_uppercase`: the upper-case form of a whole string,
/// which depends on its characters alone.
#[verifier::external_body]
pub(crate) fn str_to_upper(s: &str) -> (r: String)
    ensures
        r@ == upper_of_str(s@),
{
    s.to_uppercase()
}

/// Relies on `String::push`: appends one character at the end.
pub assume_specification[ String::push ](s: &mut String, ch: char)
    ensures
        final(s)@ == old(s)@.push(ch),
;

/// The decimal digit character for `d` (`'0'` to `'9'`).
pub open spec fn digit_char(d: nat) -> char
    recommends
        d < 10,
{
    (d + 48) as char
}

/// Whether `c` is one of the digits that generated digit groups may hold
/// (`'0'` to `'8'`).
pub open spec fn is_drawn_digit(c: char) -> bool {
    '0' <= c && c <= '8'
}

/// The decimal numeral of `n`, without leading zeros.
pub open spec fn decimal(n: nat) -> Seq<char>
    decreases n,
{
    if n < 10 {
        seq![digit_char(n)]
    } else {
        decimal(n / 10).push(digit_char(n % 10))
    }
}

/// The character of the decimal digit `d`.
pub fn digit_to_char(d: u8) -> (c: char)
    requires
        d < 10,
    ensures
        c == digit_char(d as nat),
        c as u32 == d as u32 + 48,
{
    (d + 48) as char
}

/// The decimal numeral of `n`, as `usize::to_string` writes it.
pub fn decimal_string(n: usize) -> (r: String)
    ensures
        r@ == decimal(n as nat),
    decreases n,
{
    if n < 10 {
        let mut s = String::new();
        s.push(digit_to_char(n as u8));
        s
    } else {
        let mut s = decimal_string(n / 10);
        s.push(digit_to_char((n % 10) as u8));
        s
    }
}

} // verus!
