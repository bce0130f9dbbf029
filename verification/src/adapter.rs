//! The typed interface to the external collaborators: the password
//! generation library (`rspotd`) and the calendar/clock library (`chrono`).
//! Every function here is a thin trusted wrapper; the rest of the crate is
//! verified against the contracts stated in this file.

use crate::date::{date_seq, iso_chars, parse_iso_spec, CalendarDate};
use core::fmt::Write;
use vstd::prelude::*;

verus! {

/// The password the generation algorithm derives from an ISO date string
/// and a seed. The algorithm is deterministic: the result depends on the
/// two arguments alone.
pub uninterp spec fn potd_of(date: Seq<char>, seed: Seq<char>) -> Seq<char>;

/// The dot-delimited hexadecimal DES representation of a seed, again a
/// function of the seed alone.
pub uninterp spec fn des_of(seed: Seq<char>) -> Seq<char>;

/// The rendering of a calendar date under a strftime-style pattern, a
/// function of the date's components and the pattern alone.
pub uninterp spec fn strftime_of(y: int, m: int, d: int, pattern: Seq<char>) -> Seq<char>;

/// The generation library's process-wide default seed.
pub open spec fn default_seed_text() -> Seq<char> {
    "MPSJKMDHAI"@
}

/// The seeds the generation library accepts: its own default seed is
/// always accepted, anything else must be 4 to 8 characters long.
pub open spec fn seed_accepted(seed: Seq<char>) -> bool {
    seed == default_seed_text() || (4 <= seed.len() && seed.len() <= 8)
}

/// The range ends the generation library can iterate to. Its range
/// iterator computes the day after the range's end before yielding the
/// final day, and the day after 9999-12-31 is not representable in its
/// calendar library, which aborts instead.
pub open spec fn span_end_supported(d: CalendarDate) -> bool {
    d != (CalendarDate { year: 9999, month: 12, day: 31 })
}

/// The exact message the generation library produces for a seed of the
/// wrong length.
pub open spec fn seed_refusal_text() -> Seq<char> {
    "Seed should be >= 4 and <= 8 characters long."@
}

/// The exact message the generation library produces for a range of less
/// than two days.
pub open spec fn range_same_day_text() -> Seq<char> {
    "Invalid date range. Beginning date must occur before end date, and the values cannot be the same."@
}

/// The exact message the generation library produces for a range of more
/// than a year.
pub open spec fn range_over_year_text() -> Seq<char> {
    "Invalid date range. Official tooling does not allow a date range exceeding 1 year."@
}

/// Relies on `rspotd::vals::DEFAULT_SEED` being the string stated by
/// `default_seed_text`.
#[verifier::external_body]
pub(crate) fn default_seed_string() -> (r: String)
    ensures
        r@ == default_seed_text(),
{
    rspotd::vals::DEFAULT_SEED.to_string()
}

/// Relies on `rspotd::generate`: for a strict `YYYY-MM-DD` date naming a
/// valid calendar day of year 100 or later (earlier years make the library
/// panic) and an ASCII seed, it fails exactly when the seed is neither the
/// default seed nor 4 to 8 characters long, with the library's fixed
/// seed-length message, and otherwise returns the password derived from
/// the date string and the seed.
#[verifier::external_body]
pub(crate) fn rspotd_generate(date: &str, seed: &str) -> (r: Result<String, String>)
    requires
        parse_iso_spec(date@) is Some,
        vstd::string::is_ascii(seed),
    ensures
        r is Ok <==> seed_accepted(seed@),
        r matches Ok(p) ==> p@ == potd_of(date@, seed@),
        r matches Err(m) ==> m@ == seed_refusal_text(),
{
    match rspotd::generate(date, seed) {
        Ok(p) => Ok(p),
        Err(e) => Err(e.to_string()),
    }
}

/// Relies on `rspotd::generate_multiple`: for two valid strict ISO dates
/// and an ASCII seed it succeeds exactly when the seed is accepted and the
/// range spans at least two and at most 366 days, and then returns one
/// pair per day of the inclusive range, in ascending date order (its
/// `BTreeMap` iterates in ascending key order and the `time` crate renders
/// dates as zero-padded `YYYY-MM-DD`), each password being the same value
/// `rspotd::generate` derives for that day, since both call the library's
/// single derivation routine with the same padded seed. A failure carries
/// the library's fixed message for whichever validation refused first:
/// range order, then range length, then seed length. A range ending on
/// the last representable date is excluded: iterating it would abort the
/// process (see `span_end_supported`).
#[verifier::external_body]
pub(crate) fn rspotd_generate_multiple(start: &str, end: &str, seed: &str) -> (r: Result<
    Vec<(String, String)>,
    String,
>)
    requires
        parse_iso_spec(start@) is Some,
        parse_iso_spec(end@) is Some,
        span_end_supported(parse_iso_spec(end@)->Some_0),
        vstd::string::is_ascii(seed),
    ensures
        r is Ok <==> (seed_accepted(seed@) && 2 <= date_seq(
            parse_iso_spec(start@)->Some_0,
            parse_iso_spec(end@)->Some_0,
        ).len() <= 366),
        r matches Ok(v) ==> {
            let days = date_seq(parse_iso_spec(start@)->Some_0, parse_iso_spec(end@)->Some_0);
            &&& v@.len() == days.len()
            &&& forall|i: int|
                0 <= i < v@.len() ==> (#[trigger] v@[i]).0@ == iso_chars(days[i]) && v@[i].1@
                    == potd_of(iso_chars(days[i]), seed@)
        },
        r matches Err(m) ==> m@ == ({
            let days = date_seq(parse_iso_spec(start@)->Some_0, parse_iso_spec(end@)->Some_0);
            if days.len() <= 1 {
                range_same_day_text()
            } else if days.len() > 366 {
                range_over_year_text()
            } else {
                seed_refusal_text()
            }
        }),
{
    match rspotd::generate_multiple(start, end, seed) {
        Ok(m) => Ok(m.into_iter().collect()),
        Err(e) => Err(e.to_string()),
    }
}

/// Relies on `rspotd::seed_to_des`: for an ASCII seed it fails exactly
/// when the seed is neither the default seed nor 4 to 8 characters long,
/// with the library's fixed seed-length message, and otherwise returns
/// the seed's DES representation.
#[verifier::external_body]
pub(crate) fn rspotd_seed_to_des(seed: &str) -> (r: Result<String, String>)
    requires
        vstd::string::is_ascii(seed),
    ensures
        r is Ok <==> seed_accepted(seed@),
        r matches Ok(s) ==> s@ == des_of(seed@),
        r matches Err(m) ==> m@ == seed_refusal_text(),
{
    match rspotd::seed_to_des(seed) {
        Ok(s) => Ok(s),
        Err(e) => Err(e.to_string()),
    }
}

/// Relies on `chrono::Local::now`: the wall-clock date at the moment of
/// the call, rendered as `%Y-%m-%d`. Nothing is assumed of the result; the
/// caller parses it like any other date string.
#[verifier::external_body]
pub(crate) fn today_string() -> (r: String) {
    chrono::Local::now().format("%Y-%m-%d").to_string()
}

/// Relies on `chrono::NaiveDate::from_ymd_opt` and the strftime formatter:
/// a valid calendar date is constructed, and when the pattern applies, the
/// rendering is a function of the date's components and the pattern alone.
/// An invalid pattern yields `None` instead of a panic.
#[verifier::external_body]
pub(crate) fn chrono_format_date(y: u32, m: u32, d: u32, pattern: &str) -> (r: Option<String>)
    requires
        crate::date::date_valid(CalendarDate { year: y, month: m, day: d }),
    ensures
        r matches Some(s) ==> s@ == strftime_of(y as int, m as int, d as int, pattern@),
{
    let nd = match chrono::NaiveDate::from_ymd_opt(y as i32, m, d) {
        Some(nd) => nd,
        None => return None,
    };
    let mut out = String::new();
    match write!(out, "{}", nd.format(pattern)) {
        Ok(()) => Some(out),
        Err(_) => None,
    }
}

} // verus!
