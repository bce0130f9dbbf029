//! Calendar dates: validity, ISO-8601 text form, chronological order and
//! inclusive day-by-day ranges.

use vstd::prelude::*;

verus! {

/// A calendar date in the proleptic Gregorian calendar.
#[derive(Clone, Copy, PartialEq, Eq, Structural, Debug)]
pub struct CalendarDate {
    pub year: u32,
    pub month: u32,
    pub day: u32,
}

pub open spec fn is_leap_year(y: int) -> bool {
    (y % 4 == 0 && y % 100 != 0) || y % 400 == 0
}

pub open spec fn days_in_month(y: int, m: int) -> int {
    if m == 2 {
        if is_leap_year(y) {
            29
        } else {
            28
        }
    } else if m == 4 || m == 6 || m == 9 || m == 11 {
        30
    } else if 1 <= m <= 12 {
        31
    } else {
        0
    }
}

/// The dates the tool accepts: four-digit years from 100 on (the
/// generation library cannot handle earlier ones), and a day that exists
/// in its month.
pub open spec fn date_valid(d: CalendarDate) -> bool {
    &&& 100 <= d.year <= 9999
    &&& 1 <= d.month <= 12
    &&& 1 <= d.day <= days_in_month(d.year as int, d.month as int)
}

/// A strictly increasing key for chronological order: wide enough per month
/// (31) and per year (12 * 31 = 372) that the lexicographic order of
/// (year, month, day) agrees with it on valid dates.
pub open spec fn date_ord(d: CalendarDate) -> int {
    d.year * 372 + (d.month - 1) * 31 + (d.day - 1)
}

pub open spec fn date_le(a: CalendarDate, b: CalendarDate) -> bool {
    date_ord(a) <= date_ord(b)
}

/// The day after `d`.
pub open spec fn next_date(d: CalendarDate) -> CalendarDate {
    if d.day < days_in_month(d.year as int, d.month as int) {
        CalendarDate { year: d.year, month: d.month, day: (d.day + 1) as u32 }
    } else if d.month < 12 {
        CalendarDate { year: d.year, month: (d.month + 1) as u32, day: 1 }
    } else {
        CalendarDate { year: (d.year + 1) as u32, month: 1, day: 1 }
    }
}

/// On valid dates the order key agrees with the lexicographic order of
/// (year, month, day), and is injective.
pub proof fn lemma_ord_lex(a: CalendarDate, b: CalendarDate)
    requires
        date_valid(a),
        date_valid(b),
    ensures
        date_le(a, b) <==> (a.year < b.year || (a.year == b.year && (a.month < b.month || (a.month
            == b.month && a.day <= b.day)))),
        (date_ord(a) == date_ord(b)) <==> a == b,
{
}

pub proof fn lemma_next_increases(d: CalendarDate)
    requires
        date_valid(d),
    ensures
        date_ord(next_date(d)) > date_ord(d),
{
}

/// The successor is the least valid date above `d`: any strictly later valid
/// date is at or above it. In particular the successor of a date strictly
/// below a valid bound is itself valid.
pub proof fn lemma_next_le(a: CalendarDate, b: CalendarDate)
    requires
        date_valid(a),
        date_valid(b),
        date_ord(a) < date_ord(b),
    ensures
        date_ord(next_date(a)) <= date_ord(b),
        date_valid(next_date(a)),
{
    lemma_ord_lex(a, b);
    let n = next_date(a);
    if a.day < days_in_month(a.year as int, a.month as int) {
        lemma_ord_lex(n, b);
    } else if a.month < 12 {
        lemma_ord_lex(n, b);
    } else {
        assert(b.year >= a.year + 1);
        lemma_ord_lex(n, b);
    }
}

/// Every date from `a` to `b`, both included, in chronological order.
pub open spec fn date_seq(a: CalendarDate, b: CalendarDate) -> Seq<CalendarDate>
    decreases date_ord(b) - date_ord(a),
    via date_seq_decreases
{
    if !date_valid(a) || !date_valid(b) || date_ord(a) > date_ord(b) {
        Seq::empty()
    } else if date_ord(a) == date_ord(b) {
        seq![a]
    } else {
        seq![a] + date_seq(next_date(a), b)
    }
}

#[via_fn]
proof fn date_seq_decreases(a: CalendarDate, b: CalendarDate) {
    if date_valid(a) && date_valid(b) && date_ord(a) < date_ord(b) {
        lemma_next_le(a, b);
    }
}

/// An inclusive range holds each date of the interval exactly once, in
/// ascending chronological order, with no gaps: first `a`, last `b`,
/// each element followed by its successor, and a valid date is in the
/// range exactly when it lies between the endpoints.
pub proof fn lemma_date_seq(a: CalendarDate, b: CalendarDate)
    requires
        date_valid(a),
        date_valid(b),
        date_ord(a) <= date_ord(b),
    ensures
        date_seq(a, b).len() >= 1,
        date_seq(a, b)[0] == a,
        date_seq(a, b)[date_seq(a, b).len() - 1] == b,
        forall|i: int|
            0 <= i < date_seq(a, b).len() ==> date_valid(#[trigger] date_seq(a, b)[i]),
        forall|i: int|
            0 <= i < date_seq(a, b).len() - 1 ==> #[trigger] date_seq(a, b)[i + 1] == next_date(
                date_seq(a, b)[i]),
        forall|i: int, j: int|
            0 <= i < j < date_seq(a, b).len() ==> date_ord(#[trigger] date_seq(a, b)[i]) < date_ord(
                #[trigger] date_seq(a, b)[j]),
        forall|d: CalendarDate|
            date_valid(d) ==> (date_seq(a, b).contains(d) <==> date_ord(a) <= date_ord(d)
                <= date_ord(b)),
    decreases date_ord(b) - date_ord(a),
{
    let s = date_seq(a, b);
    if date_ord(a) == date_ord(b) {
        lemma_ord_lex(a, b);
        assert(s =~= seq![a]);
        assert forall|d: CalendarDate| date_valid(d) implies (s.contains(d) <==> date_ord(a)
            <= date_ord(d) <= date_ord(b)) by {
            if date_ord(a) <= date_ord(d) <= date_ord(b) {
                lemma_ord_lex(a, d);
                assert(s[0] == d);
            }
        }
    } else {
        lemma_next_le(a, b);
        let n = next_date(a);
        lemma_next_increases(a);
        lemma_date_seq(n, b);
        let t = date_seq(n, b);
        assert(s =~= seq![a] + t);
        assert(s[0] == a);
        assert(s[s.len() - 1] == t[t.len() - 1]);
        assert forall|i: int| 0 <= i < s.len() - 1 implies #[trigger] s[i + 1] == next_date(
            s[i]) by {
            if i == 0 {
                assert(s[1] == t[0]);
            } else {
                assert(t[i - 1 + 1] == next_date(t[i - 1]));
                assert(s[i + 1] == t[i]);
                assert(s[i] == t[i - 1]);
            }
        }
        assert forall|i: int, j: int| 0 <= i < j < s.len() implies date_ord(#[trigger] s[i])
            < date_ord(#[trigger] s[j]) by {
            if i == 0 {
                assert(s[j] == t[j - 1]);
                if j - 1 == 0 {
                    assert(t[0] == n);
                } else {
                    assert(date_ord(t[0]) < date_ord(t[j - 1]));
                }
            } else {
                assert(s[i] == t[i - 1]);
                assert(s[j] == t[j - 1]);
            }
        }
        assert forall|d: CalendarDate| date_valid(d) implies (s.contains(d) <==> date_ord(a)
            <= date_ord(d) <= date_ord(b)) by {
            if s.contains(d) {
                let k = choose|k: int| 0 <= k < s.len() && s[k] == d;
                if k == 0 {
                    assert(date_ord(a) <= date_ord(d));
                } else {
                    assert(s[k] == t[k - 1]);
                    assert(t.contains(d));
                }
            }
            if date_ord(a) <= date_ord(d) <= date_ord(b) {
                if date_ord(d) == date_ord(a) {
                    lemma_ord_lex(a, d);
                    assert(s[0] == d);
                } else {
                    lemma_next_le(a, d);
                    assert(t.contains(d));
                    let k = choose|k: int| 0 <= k < t.len() && t[k] == d;
                    assert(s[k + 1] == d);
                }
            }
        }
    }
}

pub open spec fn digit_char(n: int) -> char {
    if n == 0 {
        '0'
    } else if n == 1 {
        '1'
    } else if n == 2 {
        '2'
    } else if n == 3 {
        '3'
    } else if n == 4 {
        '4'
    } else if n == 5 {
        '5'
    } else if n == 6 {
        '6'
    } else if n == 7 {
        '7'
    } else if n == 8 {
        '8'
    } else {
        '9'
    }
}

/// The value of a decimal digit character, or -1.
pub open spec fn digit_val(c: char) -> int {
    if c == '0' {
        0
    } else if c == '1' {
        1
    } else if c == '2' {
        2
    } else if c == '3' {
        3
    } else if c == '4' {
        4
    } else if c == '5' {
        5
    } else if c == '6' {
        6
    } else if c == '7' {
        7
    } else if c == '8' {
        8
    } else if c == '9' {
        9
    } else {
        -1
    }
}

/// The canonical ISO-8601 text of a date: `YYYY-MM-DD`, zero padded.
pub open spec fn iso_chars(d: CalendarDate) -> Seq<char> {
    let y = d.year as int;
    let m = d.month as int;
    let dd = d.day as int;
    seq![
        digit_char(y / 1000),
        digit_char((y / 100) % 10),
        digit_char((y / 10) % 10),
        digit_char(y % 10),
        '-',
        digit_char(m / 10),
        digit_char(m % 10),
        '-',
        digit_char(dd / 10),
        digit_char(dd % 10),
    ]
}

/// Strict ISO-8601 parsing: exactly ten characters, `YYYY-MM-DD`, all
/// components numeric, and the resulting date valid.
pub open spec fn parse_iso_spec(s: Seq<char>) -> Option<CalendarDate> {
    if s.len() == 10 && s[4] == '-' && s[7] == '-' && digit_val(s[0]) >= 0 && digit_val(s[1]) >= 0
        && digit_val(s[2]) >= 0 && digit_val(s[3]) >= 0 && digit_val(s[5]) >= 0 && digit_val(s[6])
        >= 0 && digit_val(s[8]) >= 0 && digit_val(s[9]) >= 0 {
        let y = digit_val(s[0]) * 1000 + digit_val(s[1]) * 100 + digit_val(s[2]) * 10 + digit_val(
            s[3],
        );
        let m = digit_val(s[5]) * 10 + digit_val(s[6]);
        let dd = digit_val(s[8]) * 10 + digit_val(s[9]);
        let d = CalendarDate { year: y as u32, month: m as u32, day: dd as u32 };
        if date_valid(d) {
            Some(d)
        } else {
            None
        }
    } else {
        None
    }
}

proof fn lemma_digit_round(n: int)
    requires
        0 <= n <= 9,
    ensures
        digit_val(digit_char(n)) == n,
{
}

/// Rendering a valid date and parsing it back is the identity.
pub proof fn lemma_iso_round_trip(d: CalendarDate)
    requires
        date_valid(d),
    ensures
        parse_iso_spec(iso_chars(d)) == Some(d),
{
    let s = iso_chars(d);
    let y = d.year as int;
    let m = d.month as int;
    let dd = d.day as int;
    lemma_digit_round(y / 1000);
    lemma_digit_round((y / 100) % 10);
    lemma_digit_round((y / 10) % 10);
    lemma_digit_round(y % 10);
    lemma_digit_round(m / 10);
    lemma_digit_round(m % 10);
    lemma_digit_round(dd / 10);
    lemma_digit_round(dd % 10);
    assert((y / 1000) * 1000 + ((y / 100) % 10) * 100 + ((y / 10) % 10) * 10 + y % 10 == y);
    assert((m / 10) * 10 + m % 10 == m);
    assert((dd / 10) * 10 + dd % 10 == dd);
}

proof fn lemma_char_digit(c: char)
    requires
        digit_val(c) >= 0,
    ensures
        digit_char(digit_val(c)) == c,
{
}

proof fn lemma_decimal_split(a: int, b: int, c: int, e: int)
    requires
        0 <= a <= 9,
        0 <= b <= 9,
        0 <= c <= 9,
        0 <= e <= 9,
    ensures
        (a * 1000 + b * 100 + c * 10 + e) / 1000 == a,
        ((a * 1000 + b * 100 + c * 10 + e) / 100) % 10 == b,
        ((a * 1000 + b * 100 + c * 10 + e) / 10) % 10 == c,
        (a * 1000 + b * 100 + c * 10 + e) % 10 == e,
{
    let y = a * 1000 + b * 100 + c * 10 + e;
    assert(y / 1000 == a && (y / 100) % 10 == b && (y / 10) % 10 == c && y % 10 == e) by (nonlinear_arith)
        requires
            0 <= a <= 9,
            0 <= b <= 9,
            0 <= c <= 9,
            0 <= e <= 9,
            y == a * 1000 + b * 100 + c * 10 + e,
    ;
}

/// A string the strict parser accepts is already in canonical form.
pub proof fn lemma_iso_canonical(s: Seq<char>, d: CalendarDate)
    requires
        parse_iso_spec(s) == Some(d),
    ensures
        iso_chars(d) == s,
{
    lemma_char_digit(s[0]);
    lemma_char_digit(s[1]);
    lemma_char_digit(s[2]);
    lemma_char_digit(s[3]);
    lemma_char_digit(s[5]);
    lemma_char_digit(s[6]);
    lemma_char_digit(s[8]);
    lemma_char_digit(s[9]);
    lemma_decimal_split(digit_val(s[0]), digit_val(s[1]), digit_val(s[2]), digit_val(s[3]));
    lemma_decimal_split(0, 0, digit_val(s[5]), digit_val(s[6]));
    lemma_decimal_split(0, 0, digit_val(s[8]), digit_val(s[9]));
    assert(iso_chars(d) =~= s);
}

fn digit_of(c: char) -> (r: Option<u32>)
    ensures
        r matches Some(n) ==> n == digit_val(c) && 0 <= n <= 9,
        r is None <==> digit_val(c) < 0,
{
    match c {
        '0' => Some(0),
        '1' => Some(1),
        '2' => Some(2),
        '3' => Some(3),
        '4' => Some(4),
        '5' => Some(5),
        '6' => Some(6),
        '7' => Some(7),
        '8' => Some(8),
        '9' => Some(9),
        _ => None,
    }
}

fn char_of_digit(n: u32) -> (r: char)
    requires
        n <= 9,
    ensures
        r == digit_char(n as int),
{
    match n {
        0 => '0',
        1 => '1',
        2 => '2',
        3 => '3',
        4 => '4',
        5 => '5',
        6 => '6',
        7 => '7',
        8 => '8',
        _ => '9',
    }
}

pub fn leap_year(y: u32) -> (r: bool)
    ensures
        r == is_leap_year(y as int),
{
    (y % 4 == 0 && y % 100 != 0) || y % 400 == 0
}

pub fn month_length(y: u32, m: u32) -> (r: u32)
    ensures
        r == days_in_month(y as int, m as int),
{
    if m == 2 {
        if leap_year(y) {
            29
        } else {
            28
        }
    } else if m == 4 || m == 6 || m == 9 || m == 11 {
        30
    } else if 1 <= m && m <= 12 {
        31
    } else {
        0
    }
}

pub fn date_is_valid(d: &CalendarDate) -> (r: bool)
    ensures
        r == date_valid(*d),
{
    100 <= d.year && d.year <= 9999 && 1 <= d.month && d.month <= 12 && 1 <= d.day && d.day <= month_length(
        d.year,
        d.month,
    )
}

/// Chronological comparison of two valid dates.
pub fn date_before_eq(a: &CalendarDate, b: &CalendarDate) -> (r: bool)
    requires
        date_valid(*a),
        date_valid(*b),
    ensures
        r == date_le(*a, *b),
{
    proof {
        lemma_ord_lex(*a, *b);
    }
    a.year < b.year || (a.year == b.year && (a.month < b.month || (a.month == b.month && a.day
        <= b.day)))
}

pub fn date_successor(d: &CalendarDate) -> (r: CalendarDate)
    requires
        date_valid(*d),
        d.year < 9999 || d.month < 12 || d.day < 31,
    ensures
        r == next_date(*d),
{
    if d.day < month_length(d.year, d.month) {
        CalendarDate { year: d.year, month: d.month, day: d.day + 1 }
    } else if d.month < 12 {
        CalendarDate { year: d.year, month: d.month + 1, day: 1 }
    } else {
        CalendarDate { year: d.year + 1, month: 1, day: 1 }
    }
}

/// Parse a strict `YYYY-MM-DD` string, rejecting anything malformed or out
/// of range.
pub fn parse_iso(s: &Vec<char>) -> (r: Option<CalendarDate>)
    ensures
        r == parse_iso_spec(s@),
{
    if s.len() != 10 {
        return None;
    }
    if s[4] != '-' || s[7] != '-' {
        return None;
    }
    let d0 = digit_of(s[0]);
    let d1 = digit_of(s[1]);
    let d2 = digit_of(s[2]);
    let d3 = digit_of(s[3]);
    let d5 = digit_of(s[5]);
    let d6 = digit_of(s[6]);
    let d8 = digit_of(s[8]);
    let d9 = digit_of(s[9]);
    match (d0, d1, d2, d3, d5, d6, d8, d9) {
        (
            Some(v0),
            Some(v1),
            Some(v2),
            Some(v3),
            Some(v5),
            Some(v6),
            Some(v8),
            Some(v9),
        ) => {
            let y = v0 * 1000 + v1 * 100 + v2 * 10 + v3;
            let m = v5 * 10 + v6;
            let dd = v8 * 10 + v9;
            let d = CalendarDate { year: y, month: m, day: dd };
            if date_is_valid(&d) {
                Some(d)
            } else {
                None
            }
        },
        _ => None,
    }
}

/// Render a valid date as its canonical `YYYY-MM-DD` text.
pub fn iso_string(d: &CalendarDate) -> (r: Vec<char>)
    requires
        date_valid(*d),
    ensures
        r@ == iso_chars(*d),
{
    let mut v: Vec<char> = Vec::new();
    v.push(char_of_digit(d.year / 1000));
    v.push(char_of_digit((d.year / 100) % 10));
    v.push(char_of_digit((d.year / 10) % 10));
    v.push(char_of_digit(d.year % 10));
    v.push('-');
    v.push(char_of_digit(d.month / 10));
    v.push(char_of_digit(d.month % 10));
    v.push('-');
    v.push(char_of_digit(d.day / 10));
    v.push(char_of_digit(d.day % 10));
    proof {
        assert(v@ =~= iso_chars(*d));
    }
    v
}

/// Every date from `a` to `b` inclusive, oldest first.
pub fn dates_between(a: &CalendarDate, b: &CalendarDate) -> (r: Vec<CalendarDate>)
    requires
        date_valid(*a),
        date_valid(*b),
        date_le(*a, *b),
    ensures
        r@ == date_seq(*a, *b),
{
    let mut v: Vec<CalendarDate> = Vec::new();
    let mut cur: CalendarDate = *a;
    proof {
        lemma_date_seq(*a, *b);
    }
    loop
        invariant
            date_valid(cur),
            date_valid(*b),
            date_ord(cur) <= date_ord(*b),
            v@ + date_seq(cur, *b) == date_seq(*a, *b),
        decreases date_ord(*b) - date_ord(cur),
    {
        v.push(cur);
        if cur.year == b.year && cur.month == b.month && cur.day == b.day {
            proof {
                assert(cur == *b);
                assert(date_seq(cur, *b) =~= seq![cur]);
                assert(v@ =~= date_seq(*a, *b));
            }
            return v;
        }
        proof {
            lemma_ord_lex(cur, *b);
            assert(date_ord(cur) < date_ord(*b));
            lemma_next_le(cur, *b);
            lemma_next_increases(cur);
            assert(date_seq(cur, *b) =~= seq![cur] + date_seq(next_date(cur), *b));
        }
        let ghost prev = cur;
        cur = date_successor(&cur);
        proof {
            assert(v@ + date_seq(cur, *b) =~= v@.drop_last() + date_seq(prev, *b));
        }
    }
}

} // verus!
