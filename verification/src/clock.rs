//! The wall clock and the text of an instant's time of day.

use vstd::prelude::*;

verus! {

/// Milliseconds in a day.
pub const DAY_MS: i64 = 86_400_000;

/// The character of the decimal digit `d`.
pub open spec fn digit(d: int) -> char {
    ('0' as int + d) as char
}

/// `n`, below one hundred, as two decimal digits.
pub open spec fn two_digits(n: int) -> Seq<char> {
    seq![digit(n / 10), digit(n % 10)]
}

/// `n`, below one thousand, as three decimal digits.
pub open spec fn three_digits(n: int) -> Seq<char> {
    seq![digit(n / 100), digit(n / 10 % 10), digit(n % 10)]
}

/// The time that lies `second` seconds and `nanos` nanoseconds after
/// midnight, as hours, minutes and seconds of two digits each, separated by
/// colons, then a point and the milliseconds in three digits.
pub open spec fn time_of_day_text(second: int, nanos: int) -> Seq<char> {
    two_digits(second / 3600) + seq![':'] + two_digits(second / 60 % 60) + seq![':'] + two_digits(
        second % 60,
    ) + seq!['.'] + three_digits(nanos / 1_000_000)
}

/// Milliseconds between the last midnight (UTC) and the instant.
pub open spec fn millis_of_day(timestamp_ms: int) -> int {
    timestamp_ms % 86_400_000
}

/// Whole seconds between the last midnight (UTC) and the instant.
pub open spec fn second_of_day(timestamp_ms: int) -> int {
    millis_of_day(timestamp_ms) / 1000
}

/// Nanoseconds between the last whole second and the instant.
pub open spec fn nanos_of_second(timestamp_ms: int) -> int {
    millis_of_day(timestamp_ms) % 1000 * 1_000_000
}

/// The text of the time of day (UTC) of an instant given in milliseconds
/// since the Unix epoch.
pub open spec fn time_label_text(timestamp_ms: int) -> Seq<char> {
    time_of_day_text(second_of_day(timestamp_ms), nanos_of_second(timestamp_ms))
}

/// Reads the system clock through chrono's `Utc::now` and gives the instant
/// as `DateTime::timestamp_millis` does: whole milliseconds since the Unix
/// epoch. Nothing is claimed of the value: two readings may differ in either
/// direction. `Utc::now` panics where the system clock stands before 1970.
#[verifier::external_body]
pub(crate) fn wall_clock_ms() -> (now: i64) {
    chrono::Utc::now().timestamp_millis()
}

/// Builds a time of day with chrono's
/// `NaiveTime::from_num_seconds_from_midnight_opt`, which accepts every
/// `second` below 86 400 with every `nanos` below one thousand million, and
/// formats it with `NaiveTime::format`. The format asks for the hour, the
/// minute and the second, each padded with zeros to two digits, and for the
/// fraction of the second cut to three digits behind a point.
#[verifier::external_body]
fn format_time_of_day(second: u32, nanos: u32) -> (text: String)
    requires
        second < 86_400,
        nanos < 1_000_000_000,
    ensures
        text@ == time_of_day_text(second as int, nanos as int),
{
    match chrono::NaiveTime::from_num_seconds_from_midnight_opt(second, nanos) {
        Some(time) => time.format("%H:%M:%S%.3f").to_string(),
        None => String::new(),
    }
}

/// The time of day (UTC) of an instant given in milliseconds since the Unix
/// epoch, as text: hours, minutes, seconds and milliseconds.
pub fn time_label(timestamp_ms: i64) -> (text: String)
    ensures
        text@ == time_label_text(timestamp_ms as int),
{
    let in_day: i64 = timestamp_ms % DAY_MS;
    let in_day: i64 = if in_day < 0 {
        in_day + DAY_MS
    } else {
        in_day
    };
    assert(in_day == millis_of_day(timestamp_ms as int));
    let second: u32 = (in_day / 1000) as u32;
    let nanos: u32 = ((in_day % 1000) as u32) * 1_000_000;
    format_time_of_day(second, nanos)
}

} // verus!
