use vstd::prelude::*;

verus! {

pub open spec fn is_decimal_digit(c: char) -> bool {
    '0' <= c && c <= '9'
}

pub open spec fn all_decimal_digits(s: Seq<char>) -> bool {
    forall|i: int| 0 <= i < s.len() ==> is_decimal_digit(#[trigger] s[i])
}

/// The value of a string of decimal digits, most significant first.
pub open spec fn digits_value(s: Seq<char>) -> nat
    decreases s.len(),
{
    if s.len() == 0 {
        0
    } else {
        digits_value(s.drop_last()) * 10 + ((s.last() as u32) - ('0' as u32)) as nat
    }
}

/// The digits of `s` once an optional leading `+` is set aside.
pub open spec fn unsigned_digits(s: Seq<char>) -> Seq<char> {
    if s.len() > 0 && s[0] == '+' {
        s.subrange(1, s.len() as int)
    } else {
        s
    }
}

/// The `usize` that `s` spells in decimal, if it spells one: an optional
/// `+` followed by at least one digit, with nothing else around them, and
/// a value that fits.
pub open spec fn decimal_usize(s: Seq<char>) -> Option<nat> {
    let d = unsigned_digits(s);
    if d.len() > 0 && all_decimal_digits(d) && digits_value(d) <= usize::MAX {
        Some(digits_value(d))
    } else {
        None
    }
}

/// Relies on `str::parse::<usize>` (`usize::from_str`): it accepts exactly
/// an optional `+` followed by decimal digits whose value fits in `usize`.
#[verifier::external_body]
pub(crate) fn parse_usize(s: &str) -> (r: Result<usize, std::num::ParseIntError>)
    ensures
        match r {
            Ok(n) => decimal_usize(s@) == Some(n as nat),
            Err(_) => decimal_usize(s@) is None,
        },
{
    s.parse::<usize>()
}

} // verus!
