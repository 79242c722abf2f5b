//! Points in time, written `YYYY-MM-DD HH:MM:SS` in UTC.
use vstd::prelude::*;

verus! {

/// `chrono::NaiveDateTime::parse_from_str` with the format `%Y-%m-%d %H:%M:%S`,
/// as seconds since 1970.
pub uninterp spec fn timestamp_of(text: Seq<char>) -> Option<i64>;

/// `chrono::NaiveDateTime::parse_from_str` with the format `%Y-%m-%d %H:%M:%S`:
/// the point in time that the text writes, or nothing where it does not write
/// one. Which texts those are depends on the text alone and is left to chrono.
#[verifier::external_body]
pub(crate) fn parse_timestamp(text: &str) -> (r: Option<i64>)
    ensures
        r == timestamp_of(text@),
{
    chrono::NaiveDateTime::parse_from_str(text, "%Y-%m-%d %H:%M:%S").ok().map(
        |t| t.and_utc().timestamp(),
    )
}

/// `chrono::NaiveDate::parse_from_str` with the format `%Y-%m-%d`, as the number
/// of days that `chrono::Datelike::num_days_from_ce` gives.
pub uninterp spec fn date_day(text: Seq<char>) -> Option<i32>;

/// `chrono::NaiveDate::parse_from_str` with the format `%Y-%m-%d`: the day that the
/// text writes, counted from the first day of the year 1, or nothing where it does
/// not write one. Which texts those are depends on the text alone and is left to
/// chrono.
#[verifier::external_body]
pub(crate) fn parse_date(text: &str) -> (r: Option<i32>)
    ensures
        r == date_day(text@),
{
    chrono::NaiveDate::parse_from_str(text, "%Y-%m-%d").ok().map(
        |d| chrono::Datelike::num_days_from_ce(&d),
    )
}

/// `chrono::DateTime::from_timestamp`, written out with `%Y-%m-%d %H:%M:%S`.
pub uninterp spec fn timestamp_text(seconds: i64) -> Option<Seq<char>>;

/// `chrono::DateTime::from_timestamp` at whole seconds, written out with the
/// format `%Y-%m-%d %H:%M:%S`: a text that depends on the seconds alone, or nothing
/// where the point in time is out of chrono's range.
#[verifier::external_body]
pub(crate) fn format_timestamp(seconds: i64) -> (r: Option<String>)
    ensures
        crate::text::text_of(r) == timestamp_text(seconds),
{
    chrono::DateTime::from_timestamp(seconds, 0).map(
        |t| t.format("%Y-%m-%d %H:%M:%S").to_string(),
    )
}

/// `chrono::DateTime::from_timestamp`, written out with `%Y-%m-%d %H:%M UTC`.
pub uninterp spec fn minute_text(seconds: i64) -> Option<Seq<char>>;

/// `chrono::DateTime::from_timestamp` at whole seconds, written out with the
/// format `%Y-%m-%d %H:%M UTC`: a text that depends on the seconds alone, or
/// nothing where the point in time is out of chrono's range.
#[verifier::external_body]
pub(crate) fn format_minute(seconds: i64) -> (r: Option<String>)
    ensures
        crate::text::text_of(r) == minute_text(seconds),
{
    chrono::DateTime::from_timestamp(seconds, 0).map(
        |t| t.format("%Y-%m-%d %H:%M UTC").to_string(),
    )
}

} // verus!
