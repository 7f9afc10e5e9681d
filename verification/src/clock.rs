//! Wall-clock time: milliseconds since the Unix epoch, and RFC 3339 stamps.
use vstd::prelude::*;
use crate::text::digit_char;

verus! {

/// A point in wall-clock time, carried as it is.
#[verifier::external_type_specification]
#[verifier::external_body]
pub struct ExSystemTime(std::time::SystemTime);

/// Calls `SystemTime::now`. What it returns depends on the machine's clock,
/// so nothing is stated of it.
#[verifier::external_body]
pub(crate) fn system_time_now() -> std::time::SystemTime {
    std::time::SystemTime::now()
}

/// Calls `SystemTime::duration_since(UNIX_EPOCH)`, turning its error (a time
/// before the epoch) into `None`. Nothing is stated of the duration: it
/// depends on the time given, which is opaque here.
#[verifier::external_body]
fn duration_since_epoch(t: std::time::SystemTime) -> Option<core::time::Duration> {
    t.duration_since(std::time::UNIX_EPOCH).ok()
}

/// Calls `Duration::as_millis`, the whole milliseconds of a duration; the
/// duration is opaque here, so nothing is stated of the number.
#[verifier::external_body]
fn duration_millis(d: &core::time::Duration) -> u128 {
    d.as_millis()
}

/// The millisecond timestamp reported for a clock reading: zero for a time
/// before the epoch, else the milliseconds truncated to 64 bits.
pub fn millis_to_timestamp(millis: Option<u128>) -> (ms: u64)
    ensures
        ms == match millis {
            Some(m) => m as u64,
            None => 0u64,
        },
{
    match millis {
        Some(m) => m as u64,
        None => 0,
    }
}

/// Milliseconds since the Unix epoch now, or zero when the clock is set before it.
pub fn now_ms() -> u64 {
    let reading = match duration_since_epoch(system_time_now()) {
        Some(d) => Some(duration_millis(&d)),
        None => None,
    };
    millis_to_timestamp(reading)
}

/// Whether `c` is an ASCII digit.
pub open spec fn is_ascii_digit(c: char) -> bool {
    '0' <= c && c <= '9'
}

/// Whether every character of `s` is an ASCII digit.
pub open spec fn all_digits(s: Seq<char>) -> bool {
    forall|i: int| 0 <= i < s.len() ==> is_ascii_digit(#[trigger] s[i])
}

/// A year as RFC 3339 text: four digits for the years 0 to 9999, else an
/// explicit sign followed by at least four digits.
pub open spec fn is_year_text(y: Seq<char>) -> bool {
    ||| y.len() == 4 && all_digits(y)
    ||| y.len() >= 5 && (y[0] == '+' || y[0] == '-') && all_digits(y.drop_first())
}

/// The fraction of a second: none, or a dot followed by three, six or nine digits.
pub open spec fn is_fraction_text(f: Seq<char>) -> bool {
    ||| f.len() == 0
    ||| (f.len() == 4 || f.len() == 7 || f.len() == 10) && f[0] == '.' && all_digits(f.drop_first())
}

/// A number below one hundred as two digits.
pub open spec fn two_digits(n: nat) -> Seq<char> {
    seq![digit_char(n / 10), digit_char(n % 10)]
}

/// The RFC 3339 text of a UTC date and time with the given fields.
pub open spec fn rfc3339_text(
    year: Seq<char>,
    month: nat,
    day: nat,
    hour: nat,
    minute: nat,
    second: nat,
    fraction: Seq<char>,
) -> Seq<char> {
    year + "-"@ + two_digits(month) + "-"@ + two_digits(day) + "T"@ + two_digits(hour) + ":"@
        + two_digits(minute) + ":"@ + two_digits(second) + fraction + "+00:00"@
}

/// Whether `s` is an RFC 3339 date and time in UTC as `chrono` writes it:
/// year, month and day, hours, minutes and seconds, an optional fraction of
/// a second, and the offset `+00:00`.
pub open spec fn is_rfc3339_utc(s: Seq<char>) -> bool {
    exists|year: Seq<char>, month: nat, day: nat, hour: nat, minute: nat, second: nat, fraction: Seq<char>|
        #![trigger rfc3339_text(year, month, day, hour, minute, second, fraction)]
        {
            &&& is_year_text(year)
            &&& 1 <= month <= 12
            &&& 1 <= day <= 31
            &&& hour <= 23
            &&& minute <= 59
            &&& second <= 59
            &&& is_fraction_text(fraction)
            &&& s == rfc3339_text(year, month, day, hour, minute, second, fraction)
        }
}

/// Converts a point in time with `DateTime::<Utc>::from` (which handles
/// times before 1970) and writes it with `DateTime::to_rfc3339`: the UTC date
/// and time, the fraction of a second when it is not zero (three, six or
/// nine digits), and the offset `+00:00`. The conversion unwraps a
/// timestamp outside chrono's range, some 262,000 years either side of 1970,
/// which no system clock can report. Which date and time it is depends on
/// the given time, which is opaque here, so only the form is stated.
#[verifier::external_body]
pub(crate) fn utc_rfc3339(t: std::time::SystemTime) -> (text: String)
    ensures
        is_rfc3339_utc(text@),
{
    chrono::DateTime::<chrono::Utc>::from(t).to_rfc3339()
}

} // verus!
