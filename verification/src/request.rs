//! Parameter resolution: raw command-line input becomes one immutable
//! `Request`, or the run fails before anything is generated.

use crate::adapter::{default_seed_string, default_seed_text, today_string};
use crate::date::{date_le, date_valid, parse_iso_spec, CalendarDate};
use crate::date::{date_before_eq, parse_iso};
use crate::error::PotdError;
use crate::text::{chars_eq, chars_of_str, chars_of_string, string_of_chars};
use vstd::prelude::*;

verus! {

#[derive(Clone, Copy, PartialEq, Eq, Structural, Debug)]
pub enum OutputFormat {
    Text,
    Json,
}

/// What the command line selected: one date, or an inclusive span of two.
/// A single date and a span are structurally exclusive: there is no value
/// of this type carrying both.
#[derive(Clone, Debug)]
pub enum Selection {
    Single(String),
    Span(String, String),
}

/// The raw, unresolved command-line input.
#[derive(Clone, Debug)]
pub struct RawArgs {
    pub seed: Option<String>,
    pub selection: Option<Selection>,
    pub des: bool,
    pub format_choice: Option<OutputFormat>,
    pub pattern: Option<String>,
    pub output: Option<String>,
    pub verbose: bool,
}

/// The resolved mode: exactly one of the three is active.
#[derive(Clone, Copy, PartialEq, Eq, Structural, Debug)]
pub enum Mode {
    Single(CalendarDate),
    Span(CalendarDate, CalendarDate),
    DesDump,
}

#[derive(Clone, Debug)]
pub enum Destination {
    Stdout,
    File(String),
}

/// A fully resolved invocation, immutable once built.
#[derive(Clone, Debug)]
pub struct Request {
    pub seed: String,
    pub mode: Mode,
    pub format_choice: OutputFormat,
    pub pattern: Option<String>,
    pub destination: Destination,
    pub verbose: bool,
}

pub open spec fn request_wf(req: Request) -> bool {
    match req.mode {
        Mode::Single(d) => date_valid(d),
        Mode::Span(a, b) => date_valid(a) && date_valid(b) && date_le(a, b),
        Mode::DesDump => true,
    }
}

pub open spec fn opt_chars(o: Option<String>) -> Option<Seq<char>> {
    match o {
        Some(s) => Some(s@),
        None => None,
    }
}

/// The message printed for a date string the tool cannot parse, naming
/// the offending string.
pub open spec fn invalid_date_text(s: Seq<char>) -> Seq<char> {
    "Unable to parse date '"@ + s + "'. Year, month or day value out of range."@
}

/// The message printed for a range whose start lies after its end.
pub open spec fn range_order_text() -> Seq<char> {
    "Invalid date range. Beginning date must not occur after the end date."@
}

/// What resolution promises: the outcome `r` for raw input `args` when the
/// wall clock reads `today`. The `des` flag wins over any selection; a span
/// must have two valid endpoints in order; a missing selection falls back
/// to today's date; seed, format, pattern, destination and verbosity are
/// defaulted or passed through unchanged.
pub open spec fn resolve_matches(
    args: RawArgs,
    today: Seq<char>,
    r: Result<Request, PotdError>,
) -> bool {
    &&& (r matches Ok(req) ==> {
        &&& request_wf(req)
        &&& req.seed@ == (match args.seed {
            Some(s) => s@,
            None => default_seed_text(),
        })
        &&& req.format_choice == (match args.format_choice {
            Some(f) => f,
            None => OutputFormat::Text,
        })
        &&& opt_chars(req.pattern) == opt_chars(args.pattern)
        &&& (match args.output {
            Some(p) => req.destination matches Destination::File(q) && q@ == p@,
            None => req.destination is Stdout,
        })
        &&& req.verbose == args.verbose
        &&& (args.des ==> req.mode is DesDump)
        &&& (!args.des ==> match args.selection {
            Some(Selection::Single(s)) => req.mode matches Mode::Single(d) && parse_iso_spec(s@)
                == Some(d),
            Some(Selection::Span(s, e)) => req.mode matches Mode::Span(a, b) && parse_iso_spec(s@)
                == Some(a) && parse_iso_spec(e@) == Some(b) && date_le(a, b),
            None => req.mode matches Mode::Single(d) && parse_iso_spec(today) == Some(d),
        })
    })
    &&& (r is Ok <==> (args.des || (match args.selection {
        Some(Selection::Single(s)) => parse_iso_spec(s@) is Some,
        Some(Selection::Span(s, e)) => parse_iso_spec(s@) is Some && parse_iso_spec(e@) is Some
            && date_le(parse_iso_spec(s@)->Some_0, parse_iso_spec(e@)->Some_0),
        None => parse_iso_spec(today) is Some,
    })))
    &&& (r matches Err(e) ==> (match args.selection {
        Some(Selection::Single(s)) => e matches PotdError::InvalidDate(m) && m@
            == invalid_date_text(s@),
        Some(Selection::Span(s, e2)) => e matches PotdError::InvalidRange(m) && m@ == (
        if parse_iso_spec(s@) is None {
            invalid_date_text(s@)
        } else if parse_iso_spec(e2@) is None {
            invalid_date_text(e2@)
        } else {
            range_order_text()
        }),
        None => e matches PotdError::InvalidDate(m) && m@ == invalid_date_text(today),
    }))
}

/// Executable form of the request invariant, for callers outside the
/// verified crate.
pub fn request_is_wf(req: &Request) -> (r: bool)
    ensures
        r == request_wf(*req),
{
    match &req.mode {
        Mode::Single(d) => crate::date::date_is_valid(d),
        Mode::Span(a, b) => {
            if crate::date::date_is_valid(a) && crate::date::date_is_valid(b) {
                date_before_eq(a, b)
            } else {
                false
            }
        },
        Mode::DesDump => true,
    }
}

/// Map a `--format` value to the output representation it names.
pub fn parse_format(s: &str) -> (r: Option<OutputFormat>)
    ensures
        r == Some(OutputFormat::Json) <==> s@ == "json"@,
        r == Some(OutputFormat::Text) <==> s@ == "text"@,
        r is None <==> (s@ != "json"@ && s@ != "text"@),
{
    proof {
        reveal_strlit("json");
        reveal_strlit("text");
        assert("json"@ != "text"@) by {
            assert("json"@[0] == 'j');
            assert("text"@[0] == 't');
        }
    }
    let v = chars_of_str(s);
    let j = chars_of_str("json");
    if chars_eq(&v, &j) {
        return Some(OutputFormat::Json);
    }
    let t = chars_of_str("text");
    if chars_eq(&v, &t) {
        return Some(OutputFormat::Text);
    }
    None
}

fn joined_message(prefix: &str, middle: &Vec<char>, suffix: &str) -> (r: String)
    ensures
        r@ == prefix@ + middle@ + suffix@,
{
    let mut v = chars_of_str(prefix);
    crate::render::append_chars(&mut v, middle);
    let tail = chars_of_str(suffix);
    crate::render::append_chars(&mut v, &tail);
    string_of_chars(&v)
}

fn invalid_date_message(s: &Vec<char>) -> (r: String)
    ensures
        r@ == invalid_date_text(s@),
{
    joined_message("Unable to parse date '", s, "'. Year, month or day value out of range.")
}

/// Resolve the raw input against an externally captured value of "today".
pub fn resolve_with_today(args: &RawArgs, today: &str) -> (r: Result<Request, PotdError>)
    ensures
        resolve_matches(*args, today@, r),
{
    let seed: String = match &args.seed {
        Some(s) => s.clone(),
        None => default_seed_string(),
    };
    let format_choice: OutputFormat = match &args.format_choice {
        Some(f) => *f,
        None => OutputFormat::Text,
    };
    let pattern: Option<String> = match &args.pattern {
        Some(p) => Some(p.clone()),
        None => None,
    };
    let destination: Destination = match &args.output {
        Some(p) => Destination::File(p.clone()),
        None => Destination::Stdout,
    };
    let mode: Mode = if args.des {
        Mode::DesDump
    } else {
        match &args.selection {
            Some(Selection::Single(s)) => {
                let v = chars_of_string(s);
                match parse_iso(&v) {
                    Some(d) => Mode::Single(d),
                    None => {
                        return Err(PotdError::InvalidDate(invalid_date_message(&v)));
                    },
                }
            },
            Some(Selection::Span(s, e)) => {
                let vs = chars_of_string(s);
                let ve = chars_of_string(e);
                let a = parse_iso(&vs);
                let b = parse_iso(&ve);
                match (a, b) {
                    (Some(da), Some(db)) => {
                        if date_before_eq(&da, &db) {
                            Mode::Span(da, db)
                        } else {
                            return Err(
                                PotdError::InvalidRange(
                                    "Invalid date range. Beginning date must not occur after the end date.".to_owned(),
                                ),
                            );
                        }
                    },
                    (None, _) => {
                        return Err(PotdError::InvalidRange(invalid_date_message(&vs)));
                    },
                    (_, _) => {
                        return Err(PotdError::InvalidRange(invalid_date_message(&ve)));
                    },
                }
            },
            None => {
                let v = chars_of_str(today);
                match parse_iso(&v) {
                    Some(d) => Mode::Single(d),
                    None => {
                        return Err(PotdError::InvalidDate(invalid_date_message(&v)));
                    },
                }
            },
        }
    };
    Ok(Request { seed, mode, format_choice, pattern, destination, verbose: args.verbose })
}

/// Resolve the raw input, capturing "today" from the wall clock now.
pub fn resolve(args: &RawArgs) -> (r: Result<Request, PotdError>)
    ensures
        exists|t: Seq<char>| resolve_matches(*args, t, r),
{
    let today = today_string();
    let r = resolve_with_today(args, today.as_str());
    proof {
        assert(resolve_matches(*args, today@, r));
    }
    r
}

} // verus!
