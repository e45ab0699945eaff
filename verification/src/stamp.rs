//! Fresh identifiers and the current time, which only the outside crates give.
use vstd::prelude::*;

verus! {

/// A decimal digit.
pub open spec fn is_digit(c: char) -> bool {
    '0' <= c && c <= '9'
}

/// A lower-case hexadecimal digit.
pub open spec fn is_lower_hex(c: char) -> bool {
    is_digit(c) || ('a' <= c && c <= 'f')
}

/// Every character is a decimal digit.
pub open spec fn all_digits(s: Seq<char>) -> bool {
    forall|i: int| 0 <= i < s.len() ==> is_digit(#[trigger] s[i])
}

/// The text of a random (version 4) UUID in its hyphenated lower-case form:
/// 36 characters, hyphens at 8, 13, 18 and 23, hexadecimal digits elsewhere,
/// the version digit `4` at 14 and a variant digit `8`, `9`, `a` or `b` at 19.
pub open spec fn is_uuid_v4_text(s: Seq<char>) -> bool {
    &&& s.len() == 36
    &&& forall|i: int|
        0 <= i < 36 ==> if i == 8 || i == 13 || i == 18 || i == 23 {
            #[trigger] s[i] == '-'
        } else {
            is_lower_hex(s[i])
        }
    &&& s[14] == '4'
    &&& (s[19] == '8' || s[19] == '9' || s[19] == 'a' || s[19] == 'b')
}

/// The year of an RFC 3339 time: four digits, or a sign and at least four
/// digits for a year outside 0 to 9999.
pub open spec fn is_year_text(y: Seq<char>) -> bool {
    ||| y.len() == 4 && all_digits(y)
    ||| y.len() >= 5 && (y[0] == '+' || y[0] == '-') && all_digits(y.drop_first())
}

/// `-MM-DDTHH:MM:SS`, with digits in place of the letters.
pub open spec fn is_date_time_tail(s: Seq<char>) -> bool {
    &&& s.len() == 15
    &&& s[0] == '-' && is_digit(s[1]) && is_digit(s[2])
    &&& s[3] == '-' && is_digit(s[4]) && is_digit(s[5])
    &&& s[6] == 'T' && is_digit(s[7]) && is_digit(s[8])
    &&& s[9] == ':' && is_digit(s[10]) && is_digit(s[11])
    &&& s[12] == ':' && is_digit(s[13]) && is_digit(s[14])
}

/// The fraction of a second: none, or a point and three, six or nine digits.
pub open spec fn is_fraction_text(f: Seq<char>) -> bool {
    ||| f.len() == 0
    ||| (f.len() == 4 || f.len() == 7 || f.len() == 10) && f[0] == '.' && all_digits(
        f.drop_first(),
    )
}

/// The parts of an RFC 3339 time in UTC, with a year of `y` characters and a
/// fraction of `f` characters.
pub open spec fn utc_timestamp_layout(t: Seq<char>, y: int, f: int) -> bool {
    &&& 0 <= y
    &&& 0 <= f
    &&& t.len() == y + 15 + f + 6
    &&& is_year_text(t.subrange(0, y))
    &&& is_date_time_tail(t.subrange(y, y + 15))
    &&& is_fraction_text(t.subrange(y + 15, y + 15 + f))
    &&& t.subrange(y + 15 + f, t.len() as int) == seq!['+', '0', '0', ':', '0', '0']
}

/// An RFC 3339 time in UTC, written with the offset `+00:00`.
pub open spec fn is_utc_timestamp(t: Seq<char>) -> bool {
    exists|y: int, f: int| #[trigger] utc_timestamp_layout(t, y, f)
}

/// Calls `chrono::Utc::now` and writes the instant with `to_rfc3339`. Which
/// instant that is depends on the clock; the contract states only the form of
/// the text that `to_rfc3339` writes for a UTC time: the date and time, the
/// fraction of a second that is not zero in three, six or nine digits, and the
/// offset `+00:00`.
#[verifier::external_body]
pub(crate) fn now_rfc3339() -> (r: String)
    ensures
        is_utc_timestamp(r@),
{
    chrono::Utc::now().to_rfc3339()
}

/// Calls `uuid::Uuid::new_v4` and writes the identifier with `to_string`. The
/// identifier is random; the contract states only the form of the text, the
/// hyphenated lower-case form with the version and variant digits that
/// `new_v4` sets.
#[verifier::external_body]
pub(crate) fn new_uuid() -> (r: String)
    ensures
        is_uuid_v4_text(r@),
{
    uuid::Uuid::new_v4().to_string()
}

} // verus!
