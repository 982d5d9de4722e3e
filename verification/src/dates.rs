//! Calendar dates written as "YYYY-MM-DD", read with chrono.
use vstd::prelude::*;

verus! {

/// The day of the week (0 = Sunday, ..., 6 = Saturday) of the date that `s` spells in the
/// format "%Y-%m-%d", or `None` when chrono does not read `s` as such a date.
pub uninterp spec fn parsed_weekday(s: Seq<char>) -> Option<u32>;

/// Calls `chrono::NaiveDate::parse_from_str(s, "%Y-%m-%d")` and, on success, the weekday's
/// `num_days_from_sunday()`. Claimed: the result is a function of `s` alone (named
/// `parsed_weekday`), and a weekday number is below 7, as chrono's documentation of
/// `num_days_from_sunday` gives it. Which texts chrono accepts is not stated.
#[verifier::external_body]
fn chrono_weekday(s: &str) -> (r: Option<u32>)
    ensures
        r == parsed_weekday(s@),
        r matches Some(w) ==> w < 7,
{
    match chrono::NaiveDate::parse_from_str(s, "%Y-%m-%d") {
        Ok(d) => Some(chrono::Datelike::weekday(&d).num_days_from_sunday()),
        Err(_) => None,
    }
}

/// `valid_date`: whether `v` is a calendar date in the format "YYYY-MM-DD".
pub fn valid_date(v: &str) -> (r: bool)
    ensures
        r == parsed_weekday(v@) is Some,
{
    chrono_weekday(v).is_some()
}

/// The day of the week of a date, counted from Sunday = 0; an unreadable date is refused.
pub fn weekday_of(date: &str) -> (r: Result<i64, String>)
    ensures
        match parsed_weekday(date@) {
            Some(w) => r == Ok::<i64, String>(w as i64),
            None => r matches Err(e) && e@ == "Data inválida"@,
        },
        r matches Ok(w) ==> 0 <= w < 7,
{
    match chrono_weekday(date) {
        Some(w) => Ok(w as i64),
        None => Err("Data inválida".to_string()),
    }
}

} // verus!
