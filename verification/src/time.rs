//! Dates as text. The store counts seconds since the Unix epoch; reports
//! show dates as `YYYY-MM-DD HH:MM:SS` in UTC, rendered by chrono.

use vstd::prelude::*;

verus! {

/// What chrono renders for the instant `secs` seconds after the Unix epoch,
/// in UTC, under the format `pattern`: `None` where the instant is outside
/// the dates that chrono represents.
pub uninterp spec fn formatted_time(secs: i64, pattern: Seq<char>) -> Option<Seq<char>>;

/// The seconds after the Unix epoch of the date and time that chrono reads
/// from `text` under the format `pattern`, taken as UTC: `None` where the
/// text does not fit the format or names no date.
pub uninterp spec fn parsed_time(text: Seq<char>, pattern: Seq<char>) -> Option<i64>;

/// The format of the dates in reports.
pub open spec fn date_pattern() -> Seq<char> {
    "%Y-%m-%d %H:%M:%S"@
}

/// `chrono::DateTime::from_timestamp` followed by `DateTime::format`.
///
/// The first gives `None` for seconds outside chrono's range of dates and
/// the instant in UTC otherwise; the second renders that instant under
/// `pattern`. Both compute from their arguments alone, so the result is
/// named, by [`formatted_time`], and nothing more is claimed of it. The
/// pattern is fixed to one that names a date and a time of day only, which
/// chrono can always render for an instant.
#[verifier::external_body]
fn render_time(secs: i64, pattern: &str) -> (r: Option<String>)
    requires
        pattern@ == date_pattern(),
    ensures
        match r {
            Some(text) => formatted_time(secs, pattern@) == Some(text@),
            None => formatted_time(secs, pattern@) is None,
        },
{
    match chrono::DateTime::from_timestamp(secs, 0) {
        Some(instant) => Some(instant.format(pattern).to_string()),
        None => None,
    }
}

/// `chrono::NaiveDateTime::parse_from_str`, its result counted in seconds by
/// `NaiveDateTime::and_utc` and `DateTime::timestamp`.
///
/// The first reads a date and a time of day from `text` under `pattern` and
/// fails where the text does not fit; the others count the seconds from the
/// Unix epoch to that date taken as UTC. All compute from their arguments
/// alone, so the result is named, by [`parsed_time`], and nothing more is
/// claimed of it.
#[verifier::external_body]
fn read_time(text: &str, pattern: &str) -> (r: Option<i64>)
    requires
        pattern@ == date_pattern(),
    ensures
        r == parsed_time(text@, pattern@),
{
    match chrono::NaiveDateTime::parse_from_str(text, pattern) {
        Ok(date) => Some(date.and_utc().timestamp()),
        Err(_) => None,
    }
}

/// The seconds after the Unix epoch of the date and time that `text` gives
/// as `YYYY-MM-DD HH:MM:SS`, taken as UTC. `None` for a text that gives no
/// date that way.
pub fn date_seconds(text: &str) -> (r: Option<i64>)
    ensures
        r == parsed_time(text@, date_pattern()),
{
    read_time(text, "%Y-%m-%d %H:%M:%S")
}

/// The date and time `secs` seconds after the Unix epoch as text, in UTC:
/// `YYYY-MM-DD HH:MM:SS`. `None` for an instant beyond the dates that can be
/// represented.
pub fn date_text(secs: i64) -> (r: Option<String>)
    ensures
        match r {
            Some(text) => formatted_time(secs, date_pattern()) == Some(text@),
            None => formatted_time(secs, date_pattern()) is None,
        },
{
    render_time(secs, "%Y-%m-%d %H:%M:%S")
}

} // verus!
