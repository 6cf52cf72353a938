//! Calendar dates as day numbers (days from the common era, 0001-01-01 being
//! day 1, as `chrono::Datelike::num_days_from_ce` counts them) and times of
//! day as seconds from midnight; `chrono` parses and formats them.
use vstd::prelude::*;
use crate::numbers::{decimal, zero_pad};
use chrono::Datelike;
use chrono::Timelike;

verus! {

/// What `chrono::NaiveDate::parse_from_str(s, "%Y-%m-%d")` gives: the day
/// number, or the text of chrono's error.
pub uninterp spec fn iso_date_parse(s: Seq<char>) -> Result<i32, Seq<char>>;

/// The day number of an ISO date text, if chrono reads one.
pub open spec fn iso_date_days(s: Seq<char>) -> Option<i32> {
    match iso_date_parse(s) {
        Ok(d) => Some(d),
        Err(_) => None,
    }
}

/// What `chrono::NaiveDate::from_num_days_from_ce_opt(days)` formatted with
/// `pattern` gives; `None` where chrono has no such date.
pub uninterp spec fn date_format(days: i32, pattern: Seq<char>) -> Option<Seq<char>>;

/// What `chrono::NaiveTime::parse_from_str(s, "%H:%M")` gives: seconds from
/// midnight, or the text of chrono's error.
pub uninterp spec fn hm_parse(s: Seq<char>) -> Result<u32, Seq<char>>;

/// The seconds from midnight of an `HH:MM` text, if chrono reads one.
pub open spec fn hm_seconds(s: Seq<char>) -> Option<u32> {
    match hm_parse(s) {
        Ok(v) => Some(v),
        Err(_) => None,
    }
}

/// What `chrono::NaiveDate::from_ymd_opt(year, month, day)` gives, as a day
/// number; `None` for a date that does not exist or is out of chrono's range.
pub uninterp spec fn ymd_days(year: i32, month: u32, day: u32) -> Option<i32>;

/// The strftime patterns that the service formats dates with.
pub open spec fn is_date_pattern(p: Seq<char>) -> bool {
    ||| p == "%Y-%m-%d"@
    ||| p == "%Y-%m"@
    ||| p == "%d %b"@
    ||| p == "%a"@
    ||| p == "%A"@
    ||| p == "%A, %d %b"@
    ||| p == "%A, %B %e %Y"@
}

/// Parses an ISO date (`YYYY-MM-DD`) with `chrono::NaiveDate::parse_from_str`:
/// its day number, or chrono's error as text; the name `iso_date_parse`
/// stands for the result.
#[verifier::external_body]
pub fn read_iso_date(s: &str) -> (r: Result<i32, String>)
    ensures
        match r {
            Ok(d) => iso_date_parse(s@) == Ok::<i32, Seq<char>>(d),
            Err(e) => iso_date_parse(s@) == Err::<i32, Seq<char>>(e@),
        },
{
    match chrono::NaiveDate::parse_from_str(s, "%Y-%m-%d") {
        Ok(d) => Ok(d.num_days_from_ce()),
        Err(e) => Err(e.to_string()),
    }
}

/// The day number of an ISO date text, if chrono reads one.
pub fn parse_iso_date(s: &str) -> (r: Option<i32>)
    ensures
        r == iso_date_days(s@),
{
    match read_iso_date(s) {
        Ok(d) => Some(d),
        Err(_) => None,
    }
}

/// Formats the date with day number `days` by `chrono::NaiveDate::format`
/// with one of the service's patterns (each valid, so formatting cannot
/// fail); the name `date_format` stands for the result.
#[verifier::external_body]
pub fn format_date(days: i32, pattern: &str) -> (r: Option<String>)
    requires
        is_date_pattern(pattern@),
    ensures
        match r {
            Some(s) => date_format(days, pattern@) == Some(s@),
            None => date_format(days, pattern@) is None,
        },
{
    chrono::NaiveDate::from_num_days_from_ce_opt(days).map(|d| d.format(pattern).to_string())
}

/// Parses a time of day (`HH:MM`) with `chrono::NaiveTime::parse_from_str`:
/// seconds from midnight (which chrono keeps below a day), or chrono's error
/// as text; the name `hm_parse` stands for the result.
#[verifier::external_body]
pub fn read_hm(s: &str) -> (r: Result<u32, String>)
    ensures
        match r {
            Ok(v) => hm_parse(s@) == Ok::<u32, Seq<char>>(v) && v < 86400,
            Err(e) => hm_parse(s@) == Err::<u32, Seq<char>>(e@),
        },
{
    match chrono::NaiveTime::parse_from_str(s, "%H:%M") {
        Ok(t) => Ok(t.num_seconds_from_midnight()),
        Err(e) => Err(e.to_string()),
    }
}

/// The seconds from midnight of an `HH:MM` text, if chrono reads one.
pub fn parse_hm(s: &str) -> (r: Option<u32>)
    ensures
        r == hm_seconds(s@),
        r matches Some(v) ==> v < 86400,
{
    match read_hm(s) {
        Ok(v) => Some(v),
        Err(_) => None,
    }
}

/// The day number of a calendar date, by `chrono::NaiveDate::from_ymd_opt`;
/// the name `ymd_days` stands for the result.
#[verifier::external_body]
pub fn days_of_ymd(year: i32, month: u32, day: u32) -> (r: Option<i32>)
    ensures
        r == ymd_days(year, month, day),
{
    chrono::NaiveDate::from_ymd_opt(year, month, day).map(|d| d.num_days_from_ce())
}

/// The weekday of a day number counted from Monday (0) to Sunday (6):
/// day 1, 0001-01-01 of the proleptic Gregorian calendar, was a Monday.
pub open spec fn weekday_from_monday(days: int) -> int {
    (days - 1) % 7
}

/// The weekday of a day number counted from Sunday (0) to Saturday (6).
pub open spec fn weekday_from_sunday(days: int) -> int {
    days % 7
}

/// `weekday().num_days_from_monday()` of the date with day number `days`.
pub fn days_from_monday(days: i32) -> (w: u32)
    ensures
        w == weekday_from_monday(days as int),
{
    let shifted: u64 = ((days as i64) - 1 + 2_800_000_000i64) as u64;
    let w = shifted % 7;
    assert(((days as int) - 1 + 2_800_000_000) % 7 == ((days as int) - 1) % 7);
    w as u32
}

/// `weekday().num_days_from_sunday()` of the date with day number `days`.
pub fn days_from_sunday(days: i32) -> (w: u32)
    ensures
        w == weekday_from_sunday(days as int),
{
    let shifted: u64 = ((days as i64) + 2_800_000_000i64) as u64;
    let w = shifted % 7;
    assert(((days as int) + 2_800_000_000) % 7 == (days as int) % 7);
    w as u32
}

/// The day number of the Monday that starts the week of `days`.
pub open spec fn week_start(days: int) -> int {
    days - weekday_from_monday(days)
}

/// `today - Duration::days(today.weekday().num_days_from_monday())`: the
/// Monday of the week of `today`.
pub fn start_of_week(today: i32) -> (d: i64)
    ensures
        d == week_start(today as int),
{
    let w = days_from_monday(today);
    (today as i64) - (w as i64)
}

/// The ISO text (`YYYY-MM-DD`) of the date with day number `days`.
pub fn iso_date_of(days: i32) -> (r: Option<String>)
    ensures
        match r {
            Some(s) => date_format(days, "%Y-%m-%d"@) == Some(s@),
            None => date_format(days, "%Y-%m-%d"@) is None,
        },
{
    format_date(days, "%Y-%m-%d")
}

/// A number below 100 as two digits, zero-padded.
pub open spec fn two_digits(n: int) -> Seq<char> {
    zero_pad(decimal(n as nat), 2)
}

/// `HH:MM` of a time of day given in seconds from midnight.
pub open spec fn hm_text(secs: int) -> Seq<char> {
    two_digits(secs / 3600) + ":"@ + two_digits((secs % 3600) / 60)
}

/// A time of day (seconds from midnight) as `%H:%M`: hour and minute, each
/// zero-padded to two digits.
pub fn format_hm(secs: u32) -> (r: String)
    requires
        secs < 86400,
    ensures
        r@ == hm_text(secs as int),
{
    let h = crate::numbers::int_to_padded_string((secs / 3600) as i64, 2);
    let m = crate::numbers::int_to_padded_string(((secs % 3600) / 60) as i64, 2);
    crate::text::concat3(h.as_str(), ":", m.as_str())
}

} // verus!
