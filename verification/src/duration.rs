//! Duration parsing: scans free-form diagnostic text from the probe for
//! the first timestamp of the form `HH:MM:SS.ff` (two digits each, the
//! trailing field in hundredths of a second) and converts it to a total
//! number of hundredths of a second.

use vstd::prelude::*;
use crate::namer::digit_val;
use crate::SplitError;

verus! {

/// `c` is a decimal digit character.
pub open spec fn is_digit(c: char) -> bool {
    '0' as int <= c as int && c as int <= '9' as int
}

/// The text holds a full `HH:MM:SS.ff` timestamp starting at position `p`.
pub open spec fn stamp_at(s: Seq<char>, p: int) -> bool {
    &&& 0 <= p
    &&& p + 11 <= s.len()
    &&& is_digit(s[p])
    &&& is_digit(s[p + 1])
    &&& s[p + 2] == ':'
    &&& is_digit(s[p + 3])
    &&& is_digit(s[p + 4])
    &&& s[p + 5] == ':'
    &&& is_digit(s[p + 6])
    &&& is_digit(s[p + 7])
    &&& s[p + 8] == '.'
    &&& is_digit(s[p + 9])
    &&& is_digit(s[p + 10])
}

/// The value of the two-digit decimal field starting at position `p`.
pub open spec fn two_digit_val(s: Seq<char>, p: int) -> int {
    digit_val(s[p]) * 10 + digit_val(s[p + 1])
}

/// The timestamp starting at `p`, converted to hundredths of a second:
/// `(hours * 3600 + minutes * 60 + seconds) * 100 + hundredths`.
pub open spec fn stamp_centis(s: Seq<char>, p: int) -> int {
    (two_digit_val(s, p) * 3600 + two_digit_val(s, p + 3) * 60 + two_digit_val(s, p + 6)) * 100
        + two_digit_val(s, p + 9)
}

/// Decides whether `c` is a decimal digit.
fn is_digit_char(c: char) -> (b: bool)
    ensures
        b == is_digit(c),
{
    let u = c as u32;
    48 <= u && u <= 57
}

/// The numeric value of the digit `c`.
fn digit_of(c: char) -> (d: u32)
    requires
        is_digit(c),
    ensures
        d == digit_val(c),
        d <= 9,
{
    (c as u32) - 48
}

/// The text holds a full timestamp starting at position `p`.
fn stamp_at_pos(text: &str, p: usize) -> (b: bool)
    requires
        p + 11 <= text@.len(),
        p <= usize::MAX - 11,
    ensures
        b == stamp_at(text@, p as int),
{
    is_digit_char(text.get_char(p)) && is_digit_char(text.get_char(p + 1)) && text.get_char(p + 2)
        == ':' && is_digit_char(text.get_char(p + 3)) && is_digit_char(text.get_char(p + 4))
        && text.get_char(p + 5) == ':' && is_digit_char(text.get_char(p + 6)) && is_digit_char(
        text.get_char(p + 7),
    ) && text.get_char(p + 8) == '.' && is_digit_char(text.get_char(p + 9)) && is_digit_char(
        text.get_char(p + 10),
    )
}

/// The value, in hundredths of a second, of the timestamp starting at `p`.
fn stamp_value(text: &str, p: usize) -> (v: u64)
    requires
        stamp_at(text@, p as int),
        p <= usize::MAX - 11,
    ensures
        v == stamp_centis(text@, p as int),
{
    let hours = digit_of(text.get_char(p)) * 10 + digit_of(text.get_char(p + 1));
    let minutes = digit_of(text.get_char(p + 3)) * 10 + digit_of(text.get_char(p + 4));
    let seconds = digit_of(text.get_char(p + 6)) * 10 + digit_of(text.get_char(p + 7));
    let hundredths = digit_of(text.get_char(p + 9)) * 10 + digit_of(text.get_char(p + 10));
    (((hours * 3600 + minutes * 60 + seconds) * 100 + hundredths)) as u64
}

/// Extracts the measured source duration, in hundredths of a second, from
/// the probe's diagnostic text: the first `HH:MM:SS.ff` timestamp wins.
/// When the text holds no timestamp, the parse fails with
/// `DurationNotFound`, and only then.
pub fn parse_duration(text: &str) -> (r: Result<u64, SplitError>)
    ensures
        (r is Ok) <==> exists|p: int| stamp_at(text@, p),
        r matches Ok(v) ==> exists|p: int|
            {
                &&& stamp_at(text@, p)
                &&& forall|q: int| 0 <= q < p ==> !stamp_at(text@, q)
                &&& v == stamp_centis(text@, p)
            },
        r matches Err(e) ==> e == SplitError::DurationNotFound,
{
    let n = text.unicode_len();
    if n < 11 {
        return Err(SplitError::DurationNotFound);
    }
    let mut p: usize = 0;
    while p <= n - 11
        invariant
            n == text@.len(),
            11 <= n,
            p <= n - 10,
            forall|q: int| 0 <= q < p ==> !stamp_at(text@, q),
        decreases n - p,
    {
        if stamp_at_pos(text, p) {
            let v = stamp_value(text, p);
            return Ok(v);
        }
        p = p + 1;
    }
    Err(SplitError::DurationNotFound)
}

} // verus!
