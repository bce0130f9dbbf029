//! The drive of one resolved request: generation calls, date display,
//! report rendering. Everything after the trusted adapter calls is
//! verified; the contracts say exactly which report body each request
//! yields and which error each failing input produces.

use crate::adapter::{
    chrono_format_date, des_of, potd_of, range_over_year_text, range_same_day_text,
    rspotd_generate, rspotd_generate_multiple, rspotd_seed_to_des, seed_accepted,
    seed_refusal_text, span_end_supported, strftime_of,
};
use crate::date::{
    date_seq, date_valid, dates_between, iso_chars, iso_string, lemma_date_seq,
    lemma_iso_round_trip, parse_iso_spec, CalendarDate,
};
use crate::error::PotdError;
use crate::render::{
    entries_view, json_report, render_json, render_single_text, render_text, single_text,
    text_report,
};
use crate::request::{opt_chars, request_wf, Mode, OutputFormat, Request};
use crate::text::{chars_of_string, string_of_chars};
use vstd::prelude::*;
use vstd::string::StringExecFnsIsAscii;
use vstd::utf8::is_ascii_chars;

verus! {

/// A rendered report, tagged with the representation it is in.
#[derive(Clone, Debug)]
pub struct Report {
    pub format_choice: OutputFormat,
    pub body: String,
}

/// The message for a seed outside the ASCII character set.
pub open spec fn ascii_seed_text() -> Seq<char> {
    "Seed must contain only ASCII characters."@
}

/// The message for a range the generation library cannot iterate: its
/// iterator would step past the last representable calendar date.
pub open spec fn span_end_refusal_text() -> Seq<char> {
    "Invalid date range. A range ending on 9999-12-31 is not supported."@
}

/// The message for a display pattern the date formatter refuses.
pub open spec fn pattern_refusal_text() -> Seq<char> {
    "Unable to render the date with the given pattern."@
}

/// The display text of a date: its canonical ISO form when no pattern was
/// given, else the pattern's rendering.
pub open spec fn display_of(pattern: Option<Seq<char>>, d: CalendarDate) -> Seq<char> {
    match pattern {
        None => iso_chars(d),
        Some(p) => strftime_of(d.year as int, d.month as int, d.day as int, p),
    }
}

/// One report entry: the displayed date and the password generated for
/// the date's canonical ISO text.
pub open spec fn dated_entry(pattern: Option<Seq<char>>, d: CalendarDate, seed: Seq<char>) -> (
    Seq<char>,
    Seq<char>,
) {
    (display_of(pattern, d), potd_of(iso_chars(d), seed))
}

/// The report entries of an inclusive span: one per day, oldest first.
pub open spec fn span_entries(
    pattern: Option<Seq<char>>,
    a: CalendarDate,
    b: CalendarDate,
    seed: Seq<char>,
) -> Seq<(Seq<char>, Seq<char>)> {
    date_seq(a, b).map_values(|d: CalendarDate| dated_entry(pattern, d, seed))
}

/// The body of a single-date report in the chosen representation.
pub open spec fn single_body(
    f: OutputFormat,
    pattern: Option<Seq<char>>,
    d: CalendarDate,
    seed: Seq<char>,
) -> Seq<char> {
    match f {
        OutputFormat::Text => single_text(display_of(pattern, d), potd_of(iso_chars(d), seed)),
        OutputFormat::Json => json_report(seq![dated_entry(pattern, d, seed)]),
    }
}

/// The body of a span report in the chosen representation.
pub open spec fn span_body(
    f: OutputFormat,
    pattern: Option<Seq<char>>,
    a: CalendarDate,
    b: CalendarDate,
    seed: Seq<char>,
) -> Seq<char> {
    match f {
        OutputFormat::Text => text_report(span_entries(pattern, a, b, seed)),
        OutputFormat::Json => json_report(span_entries(pattern, a, b, seed)),
    }
}

/// Perform the generation and formatting of one resolved request.
///
/// Success is owed whenever nothing outside the crate can refuse: an
/// ASCII seed the library accepts, a range end it can iterate past, and
/// no display pattern. With a pattern, the pattern formatter has the
/// last word; its failure is `DateFormat`. A seed of the wrong character
/// set is `InvalidSeed` with the crate's own message; a seed or span the
/// generation library refuses is surfaced with the library's own fixed
/// message, as `InvalidSeed` for the DES dump and as `Generation`
/// otherwise; a range ending on the last representable date is refused
/// here, before the library would abort on it.
pub fn run_request(req: &Request) -> (r: Result<Report, PotdError>)
    requires
        request_wf(*req),
    ensures
        r matches Ok(rep) ==> rep.format_choice == req.format_choice,
        !is_ascii_chars(req.seed@) ==> (r matches Err(e) && e matches PotdError::InvalidSeed(m)
            && m@ == ascii_seed_text()),
        req.mode is DesDump ==> {
            &&& (r is Ok <==> is_ascii_chars(req.seed@) && seed_accepted(req.seed@))
            &&& (r matches Ok(rep) ==> rep.body@ == des_of(req.seed@))
            &&& (r matches Err(e) ==> e is InvalidSeed)
            &&& (is_ascii_chars(req.seed@) ==> (r matches Err(e) ==> (e
                matches PotdError::InvalidSeed(m) && m@ == seed_refusal_text())))
        },
        req.mode matches Mode::Single(d) ==> {
            &&& (r matches Ok(rep) ==> rep.body@ == single_body(
                req.format_choice,
                opt_chars(req.pattern),
                d,
                req.seed@,
            ))
            &&& (is_ascii_chars(req.seed@) && !seed_accepted(req.seed@) ==> (r matches Err(e)
                && e matches PotdError::Generation(m) && m@ == seed_refusal_text()))
            &&& (is_ascii_chars(req.seed@) && seed_accepted(req.seed@) && req.pattern is None
                ==> r is Ok)
            &&& (is_ascii_chars(req.seed@) && seed_accepted(req.seed@) && req.pattern is Some
                ==> (r matches Err(e) ==> (e matches PotdError::DateFormat(m) && m@
                == pattern_refusal_text())))
        },
        req.mode matches Mode::Span(a, b) ==> {
            &&& (r matches Ok(rep) ==> rep.body@ == span_body(
                req.format_choice,
                opt_chars(req.pattern),
                a,
                b,
                req.seed@,
            ))
            &&& (is_ascii_chars(req.seed@) && !span_end_supported(b) ==> (r matches Err(e)
                && e matches PotdError::Generation(m) && m@ == span_end_refusal_text()))
            &&& (is_ascii_chars(req.seed@) && span_end_supported(b) && !(seed_accepted(req.seed@)
                && 2 <= date_seq(a, b).len() <= 366) ==> (r matches Err(e)
                && e matches PotdError::Generation(m) && m@ == (if date_seq(a, b).len() <= 1 {
                range_same_day_text()
            } else if date_seq(a, b).len() > 366 {
                range_over_year_text()
            } else {
                seed_refusal_text()
            })))
            &&& (is_ascii_chars(req.seed@) && span_end_supported(b) && seed_accepted(req.seed@)
                && 2 <= date_seq(a, b).len() <= 366 && req.pattern is None ==> r is Ok)
            &&& (is_ascii_chars(req.seed@) && span_end_supported(b) && seed_accepted(req.seed@)
                && 2 <= date_seq(a, b).len() <= 366 && req.pattern is Some ==> (r matches Err(e)
                ==> (e matches PotdError::DateFormat(m) && m@ == pattern_refusal_text())))
        },
{
    if !req.seed.as_str().is_ascii() {
        return Err(PotdError::InvalidSeed("Seed must contain only ASCII characters.".to_owned()));
    }
    match req.mode {
        Mode::DesDump => {
            match rspotd_seed_to_des(req.seed.as_str()) {
                Ok(s) => Ok(Report { format_choice: req.format_choice, body: s }),
                Err(m) => Err(PotdError::InvalidSeed(m)),
            }
        },
        Mode::Single(d) => {
            let isov = iso_string(&d);
            let isos = string_of_chars(&isov);
            proof {
                lemma_iso_round_trip(d);
            }
            let pw = match rspotd_generate(isos.as_str(), req.seed.as_str()) {
                Ok(p) => p,
                Err(m) => {
                    return Err(PotdError::Generation(m));
                },
            };
            let display: Vec<char> = match &req.pattern {
                None => isov,
                Some(p) => {
                    match chrono_format_date(d.year, d.month, d.day, p.as_str()) {
                        Some(s) => chars_of_string(&s),
                        None => {
                            return Err(
                                PotdError::DateFormat(
                                    "Unable to render the date with the given pattern.".to_owned(),
                                ),
                            );
                        },
                    }
                },
            };
            let pwv = chars_of_string(&pw);
            let body: Vec<char> = match req.format_choice {
                OutputFormat::Text => render_single_text(&display, &pwv),
                OutputFormat::Json => {
                    let mut es: Vec<(Vec<char>, Vec<char>)> = Vec::new();
                    es.push((display, pwv));
                    let out = render_json(&es);
                    proof {
                        assert(entries_view(es@) =~= seq![
                            dated_entry(opt_chars(req.pattern), d, req.seed@),
                        ]);
                    }
                    out
                },
            };
            Ok(Report { format_choice: req.format_choice, body: string_of_chars(&body) })
        },
        Mode::Span(a, b) => {
            if b.year == 9999 && b.month == 12 && b.day == 31 {
                return Err(
                    PotdError::Generation(
                        "Invalid date range. A range ending on 9999-12-31 is not supported.".to_owned(),
                    ),
                );
            }
            let sav = iso_string(&a);
            let sbv = iso_string(&b);
            let sa = string_of_chars(&sav);
            let sb = string_of_chars(&sbv);
            proof {
                lemma_iso_round_trip(a);
                lemma_iso_round_trip(b);
                lemma_date_seq(a, b);
            }
            let pairs = match rspotd_generate_multiple(
                sa.as_str(),
                sb.as_str(),
                req.seed.as_str(),
            ) {
                Ok(v) => v,
                Err(m) => {
                    return Err(PotdError::Generation(m));
                },
            };
            let days = dates_between(&a, &b);
            let n = days.len();
            let mut entries: Vec<(Vec<char>, Vec<char>)> = Vec::new();
            let mut i: usize = 0;
            while i < n
                invariant
                    request_wf(*req),
                    is_ascii_chars(req.seed@),
                    seed_accepted(req.seed@),
                    span_end_supported(b),
                    2 <= date_seq(a, b).len() <= 366,
                    req.mode matches Mode::Span(aa, bb) && aa == a && bb == b,
                    days@ == date_seq(a, b),
                    n == days@.len(),
                    pairs@.len() == n,
                    forall|j: int|
                        0 <= j < n ==> (#[trigger] pairs@[j]).1@ == potd_of(
                            iso_chars(days@[j]),
                            req.seed@,
                        ),
                    forall|j: int| 0 <= j < n ==> date_valid(#[trigger] days@[j]),
                    i <= n,
                    entries@.len() == i,
                    forall|j: int|
                        0 <= j < i ==> (#[trigger] entries@[j]).0@ == display_of(
                            opt_chars(req.pattern),
                            days@[j],
                        ) && entries@[j].1@ == potd_of(iso_chars(days@[j]), req.seed@),
                decreases n - i,
            {
                let di = days[i];
                let display: Vec<char> = match &req.pattern {
                    None => iso_string(&di),
                    Some(p) => {
                        match chrono_format_date(di.year, di.month, di.day, p.as_str()) {
                            Some(s) => chars_of_string(&s),
                            None => {
                                return Err(
                                    PotdError::DateFormat(
                                        "Unable to render the date with the given pattern.".to_owned(),
                                    ),
                                );
                            },
                        }
                    },
                };
                let pwv = chars_of_string(&pairs[i].1);
                entries.push((display, pwv));
                i = i + 1;
            }
            let body: Vec<char> = match req.format_choice {
                OutputFormat::Text => render_text(&entries),
                OutputFormat::Json => render_json(&entries),
            };
            proof {
                assert(entries_view(entries@) =~= span_entries(
                    opt_chars(req.pattern),
                    a,
                    b,
                    req.seed@,
                ));
            }
            Ok(Report { format_choice: req.format_choice, body: string_of_chars(&body) })
        },
    }
}

} // verus!
