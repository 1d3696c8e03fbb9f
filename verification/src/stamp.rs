//! The shape of a time as the lock table records it: a moment in UTC,
//! written as RFC 3339 has it.

use vstd::prelude::*;

verus! {

/// A decimal digit.
pub open spec fn is_digit(c: char) -> bool {
    '0' <= c && c <= '9'
}

/// `s` holds digits alone.
pub open spec fn all_digits(s: Seq<char>) -> bool {
    forall|i: int| 0 <= i < s.len() ==> is_digit(#[trigger] s[i])
}

/// Two digits.
pub open spec fn two_digits(s: Seq<char>) -> bool {
    s.len() == 2 && all_digits(s)
}

/// A year: four digits, or a plus sign and five digits or more.
pub open spec fn is_year(s: Seq<char>) -> bool {
    ||| s.len() == 4 && all_digits(s)
    ||| s.len() >= 6 && s[0] == '+' && all_digits(s.subrange(1, s.len() as int))
}

/// The fraction of a second: nothing, or a point and three, six or nine
/// digits.
pub open spec fn is_fraction(s: Seq<char>) -> bool {
    ||| s.len() == 0
    ||| (s.len() == 4 || s.len() == 7 || s.len() == 10) && s[0] == '.' && all_digits(
        s.subrange(1, s.len() as int),
    )
}

/// The pieces that a time is written from.
pub struct StampParts {
    pub year: Seq<char>,
    pub month: Seq<char>,
    pub day: Seq<char>,
    pub hour: Seq<char>,
    pub minute: Seq<char>,
    pub second: Seq<char>,
    pub fraction: Seq<char>,
}

/// Each piece is of the shape that its place asks for.
pub open spec fn stamp_parts_ok(p: StampParts) -> bool {
    &&& is_year(p.year)
    &&& two_digits(p.month)
    &&& two_digits(p.day)
    &&& two_digits(p.hour)
    &&& two_digits(p.minute)
    &&& two_digits(p.second)
    &&& is_fraction(p.fraction)
}

/// The time, written out from its pieces: date, `T`, time of day, and the
/// offset of UTC.
pub open spec fn stamp_text(p: StampParts) -> Seq<char> {
    p.year + seq!['-'] + p.month + seq!['-'] + p.day + seq!['T'] + p.hour + seq![':'] + p.minute
        + seq![':'] + p.second + p.fraction + "+00:00"@
}

/// `s` is a time in UTC, written as RFC 3339 has it, such as
/// `2024-05-01T10:00:00.123456789+00:00`.
pub open spec fn is_utc_stamp(s: Seq<char>) -> bool {
    exists|p: StampParts| stamp_parts_ok(p) && s == stamp_text(p)
}

/// A time is never empty: it has twenty-five characters at the least.
pub proof fn lemma_stamp_is_long(s: Seq<char>)
    requires
        is_utc_stamp(s),
    ensures
        s.len() >= 25,
{
    reveal_strlit("+00:00");
}

} // verus!
