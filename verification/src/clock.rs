//! The wall clock, read through `chrono`.

use vstd::prelude::*;
use crate::text::is_digit;

verus! {

/// The pattern of the time stamp written in front of each log entry.
pub const CLOCK_PATTERN: &'static str = "%H-%M-%S";

/// The pattern of the date and time written into a log file's name.
pub const DATE_TIME_PATTERN: &'static str = "%Y-%m-%d_%H-%M-%S";

/// A pattern that `chrono`'s formatter accepts: one of the two this library uses.
pub open spec fn known_pattern(pattern: Seq<char>) -> bool {
    pattern == CLOCK_PATTERN@ || pattern == DATE_TIME_PATTERN@
}

/// A time of day as `%H-%M-%S` writes it: two digits each for the hour, the
/// minute and the second, joined by `-`.
pub open spec fn clock_text(s: Seq<char>) -> bool {
    &&& s.len() == 8
    &&& is_digit(s[0]) && is_digit(s[1]) && s[2] == '-'
    &&& is_digit(s[3]) && is_digit(s[4]) && s[5] == '-'
    &&& is_digit(s[6]) && is_digit(s[7])
}

/// A year as `%Y` writes it: four digits, or a sign followed by at least
/// four digits for years before 0 or after 9999.
pub open spec fn year_text(s: Seq<char>) -> bool {
    ||| s.len() == 4 && forall|i: int| 0 <= i < 4 ==> is_digit(#[trigger] s[i])
    ||| s.len() >= 5 && (s[0] == '+' || s[0] == '-') && forall|i: int| 1 <= i < s.len() ==> is_digit(#[trigger] s[i])
}

/// A date and time as `%Y-%m-%d_%H-%M-%S` writes it.
pub open spec fn date_time_text(s: Seq<char>) -> bool {
    &&& s.len() >= 19
    &&& year_text(s.take(s.len() - 15))
    &&& {
        let t = s.skip(s.len() - 15);
        &&& t[0] == '-' && is_digit(t[1]) && is_digit(t[2])
        &&& t[3] == '-' && is_digit(t[4]) && is_digit(t[5])
        &&& t[6] == '_'
        &&& clock_text(t.skip(7))
    }
}

/// The local time, formatted: `chrono::Local::now().format(pattern).to_string()`.
/// The time depends on the clock, so only the shape of the text is claimed,
/// as chrono's formatter (format/formatting.rs) writes it: `%H`, `%M`, `%S`,
/// `%m` and `%d` as two zero-padded digits (a leap second as `60`), `%Y` as
/// four zero-padded digits with a sign outside 0 to 9999. Both accepted
/// patterns are made of valid specifiers, on which the formatter does not
/// fail. Reading the clock can still panic on the environment alone, which
/// no precondition can exclude: chrono expects the system clock to be after
/// the Unix epoch and usable time zone data.
#[verifier::external_body]
pub fn local_time_formatted(pattern: &str) -> (r: String)
    requires
        known_pattern(pattern@),
    ensures
        pattern@ == CLOCK_PATTERN@ ==> clock_text(r@),
        pattern@ == DATE_TIME_PATTERN@ ==> date_time_text(r@),
{
    chrono::Local::now().format(pattern).to_string()
}

} // verus!
