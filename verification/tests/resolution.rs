use rspotd_cli::date::{parse_iso, CalendarDate};
use rspotd_cli::error::PotdError;
use rspotd_cli::request::{
    parse_format, resolve_with_today, Destination, Mode, OutputFormat, RawArgs, Selection,
};

fn chars(s: &str) -> Vec<char> {
    s.chars().collect()
}

fn base_args() -> RawArgs {
    RawArgs {
        seed: None,
        selection: None,
        des: false,
        format_choice: None,
        pattern: None,
        output: None,
        verbose: false,
    }
}

#[test]
fn parse_iso_accepts_valid_dates() {
    assert_eq!(
        parse_iso(&chars("2024-01-01")),
        Some(CalendarDate { year: 2024, month: 1, day: 1 })
    );
    assert_eq!(
        parse_iso(&chars("2024-02-29")),
        Some(CalendarDate { year: 2024, month: 2, day: 29 })
    );
    assert_eq!(
        parse_iso(&chars("2000-02-29")),
        Some(CalendarDate { year: 2000, month: 2, day: 29 })
    );
    assert_eq!(
        parse_iso(&chars("0100-01-01")),
        Some(CalendarDate { year: 100, month: 1, day: 1 })
    );
}

#[test]
fn parse_iso_rejects_invalid_dates() {
    assert_eq!(parse_iso(&chars("2023-02-29")), None);
    assert_eq!(parse_iso(&chars("1900-02-29")), None);
    assert_eq!(parse_iso(&chars("2024-13-01")), None);
    assert_eq!(parse_iso(&chars("2024-00-10")), None);
    assert_eq!(parse_iso(&chars("2024-04-31")), None);
    assert_eq!(parse_iso(&chars("2024-1-1")), None);
    assert_eq!(parse_iso(&chars("24-01-01")), None);
    assert_eq!(parse_iso(&chars("0099-01-01")), None);
    assert_eq!(parse_iso(&chars("0099-12-31")), None);
    assert_eq!(parse_iso(&chars("Phoenix dactylifera")), None);
}

#[test]
fn format_values() {
    assert_eq!(parse_format("json"), Some(OutputFormat::Json));
    assert_eq!(parse_format("text"), Some(OutputFormat::Text));
    assert_eq!(parse_format("yaml"), None);
}

#[test]
fn defaults_resolve_to_today_text_stdout() {
    let req = resolve_with_today(&base_args(), "2026-10-12").unwrap();
    assert_eq!(req.seed, "MPSJKMDHAI");
    assert_eq!(req.format_choice, OutputFormat::Text);
    assert_eq!(req.mode, Mode::Single(CalendarDate { year: 2026, month: 10, day: 12 }));
    assert!(matches!(req.destination, Destination::Stdout));
    assert!(!req.verbose);
    assert!(req.pattern.is_none());
}

#[test]
fn explicit_date_wins_over_today() {
    let mut args = base_args();
    args.selection = Some(Selection::Single("2021-12-25".to_string()));
    let req = resolve_with_today(&args, "2026-10-12").unwrap();
    assert_eq!(req.mode, Mode::Single(CalendarDate { year: 2021, month: 12, day: 25 }));
}

#[test]
fn bad_date_is_invalid_date_error() {
    let mut args = base_args();
    args.selection = Some(Selection::Single("2024-02-30".to_string()));
    let e = resolve_with_today(&args, "2026-10-12").unwrap_err();
    assert!(matches!(e, PotdError::InvalidDate(_)));
    assert_eq!(
        e.message(),
        "Unable to parse date '2024-02-30'. Year, month or day value out of range."
    );
}

#[test]
fn range_start_after_end_is_invalid_range() {
    let mut args = base_args();
    args.selection = Some(Selection::Span("2024-01-02".to_string(), "2024-01-01".to_string()));
    let e = resolve_with_today(&args, "2026-10-12").unwrap_err();
    assert!(matches!(e, PotdError::InvalidRange(_)));
    assert_eq!(
        e.message(),
        "Invalid date range. Beginning date must not occur after the end date."
    );
}

#[test]
fn range_with_bad_endpoint_is_invalid_range() {
    let mut args = base_args();
    args.selection = Some(Selection::Span("2024-01-40".to_string(), "2024-02-01".to_string()));
    assert!(matches!(
        resolve_with_today(&args, "2026-10-12").unwrap_err(),
        PotdError::InvalidRange(_)
    ));
    let mut args2 = base_args();
    args2.selection = Some(Selection::Span("2024-01-01".to_string(), "2024-02-31".to_string()));
    assert!(matches!(
        resolve_with_today(&args2, "2026-10-12").unwrap_err(),
        PotdError::InvalidRange(_)
    ));
}

#[test]
fn valid_range_resolves_in_order() {
    let mut args = base_args();
    args.selection = Some(Selection::Span("2024-02-27".to_string(), "2024-03-02".to_string()));
    let req = resolve_with_today(&args, "2026-10-12").unwrap();
    assert_eq!(
        req.mode,
        Mode::Span(
            CalendarDate { year: 2024, month: 2, day: 27 },
            CalendarDate { year: 2024, month: 3, day: 2 }
        )
    );
}

#[test]
fn des_flag_wins_over_any_selection() {
    let mut args = base_args();
    args.des = true;
    args.selection = Some(Selection::Span("2024-01-40".to_string(), "bogus".to_string()));
    let req = resolve_with_today(&args, "2026-10-12").unwrap();
    assert_eq!(req.mode, Mode::DesDump);
}

#[test]
fn seed_format_output_and_verbose_pass_through() {
    let mut args = base_args();
    args.seed = Some("ABCD".to_string());
    args.format_choice = Some(OutputFormat::Json);
    args.pattern = Some("%d.%m.%Y".to_string());
    args.output = Some("potd.txt".to_string());
    args.verbose = true;
    let req = resolve_with_today(&args, "2026-10-12").unwrap();
    assert_eq!(req.seed, "ABCD");
    assert_eq!(req.format_choice, OutputFormat::Json);
    assert_eq!(req.pattern.as_deref(), Some("%d.%m.%Y"));
    assert!(matches!(req.destination, Destination::File(p) if p == "potd.txt"));
    assert!(req.verbose);
}

#[test]
fn unvalidated_seed_is_kept_verbatim_at_resolution() {
    let mut args = base_args();
    args.seed = Some("xy".to_string());
    let req = resolve_with_today(&args, "2026-10-12").unwrap();
    assert_eq!(req.seed, "xy");
}
