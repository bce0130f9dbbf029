//! The library's cross-cutting guarantees, stated once over the same spec
//! functions the executable contracts use.

use crate::adapter::potd_of;
use crate::date::{
    date_le, date_ord, date_seq, date_valid, iso_chars, lemma_date_seq, next_date, parse_iso_spec,
    CalendarDate,
};
use crate::error::PotdError;
use crate::jsonparse::{lemma_json_round_trip, parse_report};
use crate::render::single_text;
use crate::request::{range_order_text, resolve_matches, OutputFormat, RawArgs, Request, Selection};
use crate::run::{dated_entry, display_of, single_body, span_body, span_entries};
use vstd::prelude::*;

verus! {

/// A generated password reaches the single-date text report unmodified:
/// the report is exactly the displayed date, the `: ` and tab separator,
/// and the password, so the password can be read back verbatim.
pub proof fn lemma_password_verbatim(display: Seq<char>, pw: Seq<char>)
    ensures
        single_text(display, pw).len() == display.len() + 3 + pw.len(),
        single_text(display, pw).take(display.len() as int) == display,
        single_text(display, pw).skip(display.len() + 3 as int) == pw,
{
    assert(single_text(display, pw).take(display.len() as int) =~= display);
    assert(single_text(display, pw).skip(display.len() + 3 as int) =~= pw);
}

/// A span report holds exactly one entry per calendar date of the
/// inclusive interval, in ascending chronological order, with no
/// duplicates and no gaps: the entries follow `date_seq(a, b)`, whose
/// days start at `a`, end at `b`, step by exactly one day, and cover
/// precisely the valid dates between the endpoints.
pub proof fn lemma_span_entries_complete(
    pattern: Option<Seq<char>>,
    a: CalendarDate,
    b: CalendarDate,
    seed: Seq<char>,
)
    requires
        date_valid(a),
        date_valid(b),
        date_le(a, b),
    ensures
        span_entries(pattern, a, b, seed).len() == date_seq(a, b).len() >= 1,
        forall|i: int|
            0 <= i < date_seq(a, b).len() ==> #[trigger] span_entries(pattern, a, b, seed)[i]
                == dated_entry(pattern, date_seq(a, b)[i], seed),
        date_seq(a, b)[0] == a,
        date_seq(a, b)[date_seq(a, b).len() - 1] == b,
        forall|i: int|
            0 <= i < date_seq(a, b).len() - 1 ==> #[trigger] date_seq(a, b)[i + 1] == next_date(
                date_seq(a, b)[i]),
        forall|i: int, j: int|
            0 <= i < j < date_seq(a, b).len() ==> date_ord(#[trigger] date_seq(a, b)[i]) < date_ord(
                #[trigger] date_seq(a, b)[j]),
        forall|d: CalendarDate|
            date_valid(d) ==> (date_seq(a, b).contains(d) <==> date_ord(a) <= date_ord(d)
                <= date_ord(b)),
{
    lemma_date_seq(a, b);
}

/// A display pattern reorders only the displayed date strings: under any
/// two patterns a span report has the same length, entry `i` of both
/// stems from the same underlying day `date_seq(a, b)[i]`, and the
/// passwords agree entry by entry. The chronological ordering of the
/// report never depends on the pattern.
pub proof fn lemma_pattern_changes_display_only(
    p1: Option<Seq<char>>,
    p2: Option<Seq<char>>,
    a: CalendarDate,
    b: CalendarDate,
    seed: Seq<char>,
)
    requires
        date_valid(a),
        date_valid(b),
        date_le(a, b),
    ensures
        span_entries(p1, a, b, seed).len() == span_entries(p2, a, b, seed).len(),
        forall|i: int|
            0 <= i < date_seq(a, b).len() ==> (#[trigger] span_entries(p1, a, b, seed)[i]).0
                == display_of(p1, date_seq(a, b)[i]) && span_entries(p2, a, b, seed)[i].0
                == display_of(p2, date_seq(a, b)[i]),
        forall|i: int|
            0 <= i < date_seq(a, b).len() ==> (#[trigger] span_entries(p1, a, b, seed)[i]).1
                == potd_of(iso_chars(date_seq(a, b)[i]), seed) && span_entries(p2, a, b, seed)[i].1
                == potd_of(iso_chars(date_seq(a, b)[i]), seed),
{
}

/// The JSON body a span request emits parses back to exactly the
/// date-to-password entries it rendered, independent of how any JSON
/// library would iterate them.
pub proof fn lemma_span_json_round_trip(
    pattern: Option<Seq<char>>,
    a: CalendarDate,
    b: CalendarDate,
    seed: Seq<char>,
)
    ensures
        parse_report(span_body(OutputFormat::Json, pattern, a, b, seed)) == Some(
            span_entries(pattern, a, b, seed),
        ),
{
    lemma_json_round_trip(span_entries(pattern, a, b, seed));
}

/// The JSON body a single-date request emits parses back to its one
/// date-to-password entry.
pub proof fn lemma_single_json_round_trip(
    pattern: Option<Seq<char>>,
    d: CalendarDate,
    seed: Seq<char>,
)
    ensures
        parse_report(single_body(OutputFormat::Json, pattern, d, seed)) == Some(
            seq![dated_entry(pattern, d, seed)],
        ),
{
    lemma_json_round_trip(seq![dated_entry(pattern, d, seed)]);
}

/// A span whose start lies after its end never resolves: every outcome
/// the resolver's contract admits for such input is a failure carrying
/// `InvalidRange` with the range-order message, so no generation call,
/// report or write can follow.
pub proof fn lemma_reversed_range_rejected(
    args: RawArgs,
    today: Seq<char>,
    r: Result<Request, PotdError>,
)
    requires
        !args.des,
        args.selection matches Some(Selection::Span(s, e)) && parse_iso_spec(s@) is Some
            && parse_iso_spec(e@) is Some && date_ord(parse_iso_spec(s@)->Some_0) > date_ord(
            parse_iso_spec(e@)->Some_0,
        ),
        resolve_matches(args, today, r),
    ensures
        r matches Err(err) && err matches PotdError::InvalidRange(m) && m@ == range_order_text(),
{
}

/// The DES dump wins over any date selection: whenever the raw input
/// carries the flag, every outcome the resolver's contract admits is a
/// successfully resolved DES-dump request, whatever the selection holds.
/// The run's own contract then says the dump fails exactly when the
/// generation library refuses the seed, and then with `InvalidSeed`.
pub proof fn lemma_des_overrides_selection(
    args: RawArgs,
    today: Seq<char>,
    r: Result<Request, PotdError>,
)
    requires
        args.des,
        resolve_matches(args, today, r),
    ensures
        r matches Ok(req) && req.mode is DesDump,
{
}

} // verus!
