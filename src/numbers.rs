//! Decimal text of 64-bit integers, both ways.
use vstd::prelude::*;

verus! {

pub open spec fn is_digit(c: char) -> bool {
    '0' <= c && c <= '9'
}

pub open spec fn digit_value(c: char) -> int {
    c as int - '0' as int
}

pub open spec fn all_digits(s: Seq<char>) -> bool {
    forall|i: int| 0 <= i < s.len() ==> is_digit(#[trigger] s[i])
}

/// The number that a sequence of decimal digits spells.
pub open spec fn digits_value(s: Seq<char>) -> int
    decreases s.len(),
{
    if s.len() == 0 {
        0
    } else {
        digits_value(s.drop_last()) * 10 + digit_value(s.last())
    }
}

/// The integer that `s` spells: an optional `+` or `-` sign followed by one
/// or more decimal digits, and nothing else.
pub open spec fn integer_of(s: Seq<char>) -> Option<int> {
    if s.len() > 0 && (s[0] == '-' || s[0] == '+') {
        let d = s.subrange(1, s.len() as int);
        if d.len() > 0 && all_digits(d) {
            Some(if s[0] == '-' { -digits_value(d) } else { digits_value(d) })
        } else {
            None
        }
    } else if s.len() > 0 && all_digits(s) {
        Some(digits_value(s))
    } else {
        None
    }
}

pub open spec fn in_i64_range(v: int) -> bool {
    i64::MIN <= v <= i64::MAX
}

/// The digit character of `d`, for `0 <= d < 10`.
pub open spec fn digit_char(d: int) -> char {
    (d + '0' as int) as char
}

/// The decimal digits of a natural number, without leading zeros.
pub open spec fn natural_text(n: nat) -> Seq<char>
    decreases n,
{
    if n < 10 {
        seq![digit_char(n as int)]
    } else {
        natural_text(n / 10) + seq![digit_char((n % 10) as int)]
    }
}

/// The decimal text of an integer, with a leading `-` when it is negative.
pub open spec fn decimal_text(v: int) -> Seq<char> {
    if v < 0 {
        seq!['-'] + natural_text((-v) as nat)
    } else {
        natural_text(v as nat)
    }
}

/// Relies on `str::parse::<i64>`: an optional sign followed by decimal
/// digits, whose value fits in an `i64`; anything else is an error.
#[verifier::external_body]
pub(crate) fn parse_i64(s: &str) -> (r: Option<i64>)
    ensures
        r is Some <==> (integer_of(s@) matches Some(v) && in_i64_range(v)),
        r matches Some(v) ==> integer_of(s@) == Some(v as int),
{
    s.parse::<i64>().ok()
}

/// Relies on `i64`'s `Display`: its decimal text.
#[verifier::external_body]
pub(crate) fn int_text(v: i64) -> (r: String)
    ensures
        r@ == decimal_text(v as int),
{
    v.to_string()
}

} // verus!
