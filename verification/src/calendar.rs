//! Calendar days, as chrono sees them.
//!
//! A day is carried as its number in the proleptic Gregorian calendar, with
//! 1 January of year 1 as day 1. Everything chrono computes is reached
//! through the private functions at the end of this file; their contracts are
//! believed, not proved.

use vstd::prelude::*;

verus! {

/// The day number of the UTC date that chrono reads out of `text`, taken as a
/// relaxed RFC 3339 date and time; `None` where chrono rejects the text.
pub uninterp spec fn parsed_day_number(text: Seq<char>) -> Option<i32>;

/// What chrono writes for the day `day_number` under the strftime pattern
/// `pattern`; `None` where the day is outside chrono's range or the pattern
/// cannot be written for a date.
pub uninterp spec fn day_text(day_number: i32, pattern: Seq<char>) -> Option<Seq<char>>;

/// What chrono writes for the day `day_number` under the strftime pattern
/// `pattern` with the names of the locale called `locale`; `None` where the
/// day is outside chrono's range, no locale has that name, or the pattern
/// cannot be written for a date.
pub uninterp spec fn localized_day_text(
    day_number: i32,
    pattern: Seq<char>,
    locale: Seq<char>,
) -> Option<Seq<char>>;

/// The view of an optional string.
pub open spec fn text_view(s: Option<String>) -> Option<Seq<char>> {
    match s {
        Some(t) => Some(t@),
        None => None,
    }
}

/// `chrono::DateTime::<Utc>::from_str`, followed by the day number of the
/// date it found. The contract only names the result: chrono's parser accepts
/// more than strict RFC 3339 (a space for the `T`, blanks between fields).
#[verifier::external_body]
pub(crate) fn parse_day_number(text: &str) -> (r: Option<i32>)
    ensures
        r == parsed_day_number(text@),
{
    match text.parse::<chrono::DateTime<chrono::Utc>>() {
        Ok(instant) => Some(chrono::Datelike::num_days_from_ce(&instant.date_naive())),
        Err(_) => None,
    }
}

/// `chrono::NaiveDate::format` on the day with that number, written out into
/// a string. The contract only names the result.
#[verifier::external_body]
pub(crate) fn format_day(day_number: i32, pattern: &str) -> (r: Option<String>)
    ensures
        text_view(r) == day_text(day_number, pattern@),
{
    let date = chrono::NaiveDate::from_num_days_from_ce_opt(day_number)?;
    let mut out = String::new();
    date.format(pattern).write_to(&mut out).ok()?;
    Some(out)
}

/// `chrono::NaiveDate::format_localized` on the day with that number, written
/// out into a string. The contract only names the result.
#[verifier::external_body]
pub(crate) fn format_day_localized(day_number: i32, pattern: &str, locale: &str) -> (r: Option<
    String,
>)
    ensures
        text_view(r) == localized_day_text(day_number, pattern@, locale@),
{
    let date = chrono::NaiveDate::from_num_days_from_ce_opt(day_number)?;
    let locale = chrono::Locale::try_from(locale).ok()?;
    let mut out = String::new();
    date.format_localized(pattern, locale).write_to(&mut out).ok()?;
    Some(out)
}

/// `chrono::Utc::now`, reduced to the day number of its date. Nothing is
/// promised of the result: it is whatever the system clock says. chrono
/// panics here if the clock is set before 1970.
#[verifier::external_body]
pub(crate) fn utc_today() -> (r: i32) {
    chrono::Datelike::num_days_from_ce(&chrono::Utc::now().date_naive())
}

} // verus!
