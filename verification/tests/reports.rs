use rspotd_cli::date::CalendarDate;
use rspotd_cli::error::PotdError;
use rspotd_cli::render::{render_json, render_single_text, render_text};
use rspotd_cli::request::{
    resolve_with_today, Destination, Mode, OutputFormat, RawArgs, Request, Selection,
};
use rspotd_cli::run::run_request;

fn chars(s: &str) -> Vec<char> {
    s.chars().collect()
}

fn text(v: &[char]) -> String {
    v.iter().collect()
}

fn request(seed: &str, mode: Mode, format_choice: OutputFormat, pattern: Option<&str>) -> Request {
    Request {
        seed: seed.to_string(),
        mode,
        format_choice,
        pattern: pattern.map(|p| p.to_string()),
        destination: Destination::Stdout,
        verbose: false,
    }
}

fn single(y: u32, m: u32, d: u32) -> Mode {
    Mode::Single(CalendarDate { year: y, month: m, day: d })
}

fn span(y1: u32, m1: u32, d1: u32, y2: u32, m2: u32, d2: u32) -> Mode {
    Mode::Span(
        CalendarDate { year: y1, month: m1, day: d1 },
        CalendarDate { year: y2, month: m2, day: d2 },
    )
}

#[test]
fn single_text_separator_is_exact() {
    let out = render_single_text(&chars("2024-01-01"), &chars("abc123"));
    assert_eq!(text(&out), "2024-01-01: \tabc123");
}

#[test]
fn single_date_text_report() {
    let req = request("MPSJKMDHAI", single(2021, 12, 25), OutputFormat::Text, None);
    let rep = run_request(&req).unwrap();
    assert_eq!(rep.body, "2021-12-25: \tZCARK8TPK5");
}

#[test]
fn single_date_custom_seed() {
    let req = request("1122AABB", single(2021, 12, 25), OutputFormat::Text, None);
    assert_eq!(run_request(&req).unwrap().body, "2021-12-25: \tFEWNX8OS0O");
}

#[test]
fn single_date_password_matches_library() {
    let req = request("ASDF", single(2024, 4, 21), OutputFormat::Text, None);
    let expected = rspotd::generate("2024-04-21", "ASDF").unwrap();
    assert_eq!(run_request(&req).unwrap().body, format!("2024-04-21: \t{}", expected));
}

#[test]
fn single_date_json_report() {
    let req = request("MPSJKMDHAI", single(2021, 12, 25), OutputFormat::Json, None);
    let rep = run_request(&req).unwrap();
    assert_eq!(rep.body, "{\n  \"2021-12-25\": \"ZCARK8TPK5\"\n}");
}

#[test]
fn invalid_seed_length_fails_generation() {
    let req = request("ABC", single(2021, 12, 25), OutputFormat::Text, None);
    assert!(matches!(run_request(&req).unwrap_err(), PotdError::Generation(_)));
    let req2 = request("ABCABCABC", single(2021, 12, 25), OutputFormat::Text, None);
    assert!(matches!(run_request(&req2).unwrap_err(), PotdError::Generation(_)));
}

#[test]
fn non_ascii_seed_is_invalid_seed() {
    let req = request("s\u{e9}\u{e9}d", single(2021, 12, 25), OutputFormat::Text, None);
    assert!(matches!(run_request(&req).unwrap_err(), PotdError::InvalidSeed(_)));
}

#[test]
fn des_dump_known_seed() {
    let req = request("ABCD", Mode::DesDump, OutputFormat::Text, None);
    assert_eq!(run_request(&req).unwrap().body, "3F.94.E2.AA.46.63.AA.78");
}

#[test]
fn des_dump_default_seed() {
    let req = request("MPSJKMDHAI", Mode::DesDump, OutputFormat::Text, None);
    assert_eq!(run_request(&req).unwrap().body, "DB.B5.CB.D6.11.17.D6.EB");
}

#[test]
fn des_dump_invalid_seed() {
    let req = request("ABC", Mode::DesDump, OutputFormat::Text, None);
    assert!(matches!(run_request(&req).unwrap_err(), PotdError::InvalidSeed(_)));
}

#[test]
fn range_text_report_two_days() {
    let req = request("MPSJKMDHAI", span(2021, 12, 25, 2021, 12, 26), OutputFormat::Text, None);
    let rep = run_request(&req).unwrap();
    assert_eq!(rep.body, "2021-12-25:\tZCARK8TPK5\n2021-12-26:\tZOU3MLLZO4");
}

#[test]
fn range_json_report_two_days() {
    let req = request("MPSJKMDHAI", span(2021, 12, 25, 2021, 12, 26), OutputFormat::Json, None);
    let rep = run_request(&req).unwrap();
    assert_eq!(
        rep.body,
        "{\n  \"2021-12-25\": \"ZCARK8TPK5\",\n  \"2021-12-26\": \"ZOU3MLLZO4\"\n}"
    );
}

#[test]
fn range_covers_every_day_once_in_order() {
    let req = request("MPSJKMDHAI", span(2024, 2, 27, 2024, 3, 2), OutputFormat::Text, None);
    let rep = run_request(&req).unwrap();
    let lines: Vec<&str> = rep.body.split('\n').collect();
    let dates: Vec<&str> = lines.iter().map(|l| l.split(":\t").next().unwrap()).collect();
    assert_eq!(dates, vec!["2024-02-27", "2024-02-28", "2024-02-29", "2024-03-01", "2024-03-02"]);
    for line in &lines {
        let mut parts = line.split(":\t");
        let date = parts.next().unwrap();
        let pw = parts.next().unwrap();
        assert_eq!(pw, rspotd::generate(date, "MPSJKMDHAI").unwrap());
    }
}

#[test]
fn range_ending_on_last_calendar_day_is_refused() {
    let req = request("MPSJKMDHAI", span(9999, 12, 30, 9999, 12, 31), OutputFormat::Text, None);
    let e = run_request(&req).unwrap_err();
    assert!(matches!(e, PotdError::Generation(_)));
    assert_eq!(e.message(), "Invalid date range. A range ending on 9999-12-31 is not supported.");
}

#[test]
fn range_just_below_last_calendar_day_works() {
    let req = request("MPSJKMDHAI", span(9999, 12, 29, 9999, 12, 30), OutputFormat::Text, None);
    let rep = run_request(&req).unwrap();
    let expected = format!(
        "9999-12-29:\t{}\n9999-12-30:\t{}",
        rspotd::generate("9999-12-29", "MPSJKMDHAI").unwrap(),
        rspotd::generate("9999-12-30", "MPSJKMDHAI").unwrap()
    );
    assert_eq!(rep.body, expected);
}

#[test]
fn range_of_one_day_is_refused_by_generation() {
    let req = request("MPSJKMDHAI", span(2021, 12, 25, 2021, 12, 25), OutputFormat::Text, None);
    assert!(matches!(run_request(&req).unwrap_err(), PotdError::Generation(_)));
}

#[test]
fn range_longer_than_a_year_is_refused_by_generation() {
    let req = request("MPSJKMDHAI", span(2021, 12, 25, 2023, 1, 26), OutputFormat::Text, None);
    assert!(matches!(run_request(&req).unwrap_err(), PotdError::Generation(_)));
}

#[test]
fn date_pattern_reorders_single_display_only() {
    let req = request("MPSJKMDHAI", single(2024, 3, 5), OutputFormat::Text, Some("%m-%d-%Y"));
    let expected = rspotd::generate("2024-03-05", "MPSJKMDHAI").unwrap();
    assert_eq!(run_request(&req).unwrap().body, format!("03-05-2024: \t{}", expected));
}

#[test]
fn date_pattern_keeps_range_order() {
    let req = request("MPSJKMDHAI", span(2024, 3, 5, 2024, 3, 6), OutputFormat::Text, Some("%d"));
    let rep = run_request(&req).unwrap();
    let dates: Vec<&str> = rep.body.split('\n').map(|l| l.split(":\t").next().unwrap()).collect();
    assert_eq!(dates, vec!["05", "06"]);
}

#[test]
fn bad_pattern_is_a_date_format_error() {
    let req = request("MPSJKMDHAI", single(2024, 3, 5), OutputFormat::Text, Some("%Q"));
    assert!(matches!(run_request(&req).unwrap_err(), PotdError::DateFormat(_)));
}

#[test]
fn json_report_round_trips_through_serde() {
    let req = request("MPSJKMDHAI", span(2021, 12, 25, 2021, 12, 27), OutputFormat::Json, None);
    let rep = run_request(&req).unwrap();
    let parsed: serde_json::Value = serde_json::from_str(&rep.body).unwrap();
    let obj = parsed.as_object().unwrap();
    assert_eq!(obj.len(), 3);
    assert_eq!(
        obj.get("2021-12-25").unwrap().as_str().unwrap(),
        rspotd::generate("2021-12-25", "MPSJKMDHAI").unwrap()
    );
    assert_eq!(
        obj.get("2021-12-26").unwrap().as_str().unwrap(),
        rspotd::generate("2021-12-26", "MPSJKMDHAI").unwrap()
    );
    assert_eq!(
        obj.get("2021-12-27").unwrap().as_str().unwrap(),
        rspotd::generate("2021-12-27", "MPSJKMDHAI").unwrap()
    );
}

#[test]
fn json_escaping_round_trips_through_serde() {
    let mut entries: Vec<(Vec<char>, Vec<char>)> = Vec::new();
    entries.push((chars("k\"ey"), chars("va\\lue\nwith\tctrl\u{1}")));
    let out = text(&render_json(&entries));
    let parsed: serde_json::Value = serde_json::from_str(&out).unwrap();
    let obj = parsed.as_object().unwrap();
    assert_eq!(
        obj.get("k\"ey").unwrap().as_str().unwrap(),
        "va\\lue\nwith\tctrl\u{1}"
    );
}

#[test]
fn json_empty_object_and_text_empty() {
    let entries: Vec<(Vec<char>, Vec<char>)> = Vec::new();
    assert_eq!(text(&render_json(&entries)), "{}");
    assert_eq!(text(&render_text(&entries)), "");
}

#[test]
fn des_with_bad_seed_ignores_selection() {
    let args = RawArgs {
        seed: Some("ABC".to_string()),
        selection: Some(Selection::Span("2021-12-25".to_string(), "2021-12-26".to_string())),
        des: true,
        format_choice: None,
        pattern: None,
        output: None,
        verbose: false,
    };
    let req = resolve_with_today(&args, "2026-10-12").unwrap();
    assert_eq!(req.mode, Mode::DesDump);
    assert!(matches!(run_request(&req).unwrap_err(), PotdError::InvalidSeed(_)));
}

#[test]
fn error_messages_are_verbatim() {
    let req = request("ABC", single(2021, 12, 25), OutputFormat::Text, None);
    let e = run_request(&req).unwrap_err();
    let direct = rspotd::generate("2021-12-25", "ABC").unwrap_err();
    assert_eq!(e.message(), direct.to_string());
    assert_eq!(e.message(), "Seed should be >= 4 and <= 8 characters long.");
}

#[test]
fn range_error_messages_are_verbatim() {
    let same = request("MPSJKMDHAI", span(2021, 12, 25, 2021, 12, 25), OutputFormat::Text, None);
    assert_eq!(
        run_request(&same).unwrap_err().message(),
        rspotd::generate_multiple("2021-12-25", "2021-12-25", "MPSJKMDHAI")
            .unwrap_err()
            .to_string()
    );
    let long = request("MPSJKMDHAI", span(2021, 12, 25, 2023, 1, 26), OutputFormat::Text, None);
    assert_eq!(
        run_request(&long).unwrap_err().message(),
        rspotd::generate_multiple("2021-12-25", "2023-01-26", "MPSJKMDHAI")
            .unwrap_err()
            .to_string()
    );
    let seed = request("ABC", span(2021, 12, 25, 2021, 12, 26), OutputFormat::Text, None);
    assert_eq!(
        run_request(&seed).unwrap_err().message(),
        rspotd::generate_multiple("2021-12-25", "2021-12-26", "ABC").unwrap_err().to_string()
    );
}
