//! A parser for the JSON reports this crate emits, and the proof that
//! parsing a rendered report recovers exactly the date-to-password
//! entries that were rendered, in their order.

use crate::render::{entry_line, entry_lines, esc, esc_char, hex_char, join_sep, json_report};
use vstd::prelude::*;

verus! {

/// The value of a lowercase hexadecimal digit, or -1.
pub open spec fn hex_val(c: char) -> int {
    if c == '0' {
        0
    } else if c == '1' {
        1
    } else if c == '2' {
        2
    } else if c == '3' {
        3
    } else if c == '4' {
        4
    } else if c == '5' {
        5
    } else if c == '6' {
        6
    } else if c == '7' {
        7
    } else if c == '8' {
        8
    } else if c == '9' {
        9
    } else if c == 'a' {
        10
    } else if c == 'b' {
        11
    } else if c == 'c' {
        12
    } else if c == 'd' {
        13
    } else if c == 'e' {
        14
    } else if c == 'f' {
        15
    } else {
        -1
    }
}

pub open spec fn scan_cons(c: char, r: Option<(Seq<char>, Seq<char>)>) -> Option<
    (Seq<char>, Seq<char>),
> {
    match r {
        Some(t) => Some((seq![c] + t.0, t.1)),
        None => None,
    }
}

/// Scan a JSON string body starting just after its opening quote: the
/// decoded content and what follows the closing quote.
pub open spec fn scan_str(s: Seq<char>) -> Option<(Seq<char>, Seq<char>)>
    decreases s.len(),
{
    if s.len() == 0 {
        None
    } else if s[0] == '"' {
        Some((Seq::empty(), s.skip(1)))
    } else if s[0] == '\\' {
        if s.len() < 2 {
            None
        } else if s[1] == '"' {
            scan_cons('"', scan_str(s.skip(2)))
        } else if s[1] == '\\' {
            scan_cons('\\', scan_str(s.skip(2)))
        } else if s[1] == 'b' {
            scan_cons('\u{8}', scan_str(s.skip(2)))
        } else if s[1] == 't' {
            scan_cons('\t', scan_str(s.skip(2)))
        } else if s[1] == 'n' {
            scan_cons('\n', scan_str(s.skip(2)))
        } else if s[1] == 'f' {
            scan_cons('\u{c}', scan_str(s.skip(2)))
        } else if s[1] == 'r' {
            scan_cons('\r', scan_str(s.skip(2)))
        } else if s[1] == 'u' {
            if s.len() >= 6 && s[2] == '0' && s[3] == '0' && hex_val(s[4]) >= 0 && hex_val(s[5])
                >= 0 {
                scan_cons((((hex_val(s[4]) * 16 + hex_val(s[5])) as u32) as char), scan_str(s.skip(6)))
            } else {
                None
            }
        } else {
            None
        }
    } else {
        scan_cons(s[0], scan_str(s.skip(1)))
    }
}

proof fn lemma_scan_shrinks(s: Seq<char>)
    requires
        scan_str(s) is Some,
    ensures
        scan_str(s)->Some_0.1.len() < s.len(),
    decreases s.len(),
{
    if s[0] == '"' {
    } else if s[0] == '\\' {
        if s[1] == 'u' && !(s[1] == '"' || s[1] == '\\' || s[1] == 'b' || s[1] == 't' || s[1]
            == 'n' || s[1] == 'f' || s[1] == 'r') {
            lemma_scan_shrinks(s.skip(6));
        } else {
            lemma_scan_shrinks(s.skip(2));
        }
    } else {
        lemma_scan_shrinks(s.skip(1));
    }
}

/// Parse the inner lines of a rendered JSON object: entries of the form
/// `  "key": "value"`, separated by `,` and a newline.
pub open spec fn parse_entries(s: Seq<char>) -> Option<Seq<(Seq<char>, Seq<char>)>>
    decreases s.len(),
    via parse_entries_decreases
{
    if s.len() >= 3 && s[0] == ' ' && s[1] == ' ' && s[2] == '"' {
        match scan_str(s.skip(3)) {
            Some(kr) => {
                if kr.1.len() >= 3 && kr.1[0] == ':' && kr.1[1] == ' ' && kr.1[2] == '"' {
                    match scan_str(kr.1.skip(3)) {
                        Some(vr) => {
                            if vr.1.len() == 0 {
                                Some(seq![(kr.0, vr.0)])
                            } else if vr.1.len() >= 2 && vr.1[0] == ',' && vr.1[1] == '\n' {
                                match parse_entries(vr.1.skip(2)) {
                                    Some(rest) => Some(seq![(kr.0, vr.0)] + rest),
                                    None => None,
                                }
                            } else {
                                None
                            }
                        },
                        None => None,
                    }
                } else {
                    None
                }
            },
            None => None,
        }
    } else {
        None
    }
}

#[via_fn]
proof fn parse_entries_decreases(s: Seq<char>) {
    if s.len() >= 3 && s[0] == ' ' && s[1] == ' ' && s[2] == '"' {
        match scan_str(s.skip(3)) {
            Some(kr) => {
                lemma_scan_shrinks(s.skip(3));
                if kr.1.len() >= 3 && kr.1[0] == ':' && kr.1[1] == ' ' && kr.1[2] == '"' {
                    match scan_str(kr.1.skip(3)) {
                        Some(vr) => {
                            lemma_scan_shrinks(kr.1.skip(3));
                        },
                        None => {},
                    }
                }
            },
            None => {},
        }
    }
}

/// Parse a whole rendered report: the empty object, or an object of
/// string entries, one per line, pretty-printed with two-space
/// indentation.
pub open spec fn parse_report(s: Seq<char>) -> Option<Seq<(Seq<char>, Seq<char>)>> {
    if s == seq!['{', '}'] {
        Some(Seq::empty())
    } else if s.len() >= 4 && s[0] == '{' && s[1] == '\n' && s[s.len() - 2] == '\n' && s[s.len()
        - 1] == '}' {
        parse_entries(s.subrange(2, s.len() - 2))
    } else {
        None
    }
}

proof fn lemma_hex_round(n: int)
    requires
        0 <= n <= 15,
    ensures
        hex_val(hex_char(n)) == n,
{
}

/// Scanning the escape of `sv` followed by a closing quote and anything
/// else decodes `sv` exactly and stops at the quote.
proof fn lemma_scan_esc(sv: Seq<char>, rest: Seq<char>)
    ensures
        scan_str(esc(sv) + seq!['"'] + rest) == Some((sv, rest)),
    decreases sv.len(),
{
    let s = esc(sv) + seq!['"'] + rest;
    if sv.len() == 0 {
        assert(esc(sv) =~= Seq::<char>::empty());
        assert(s =~= seq!['"'] + rest);
        assert(s[0] == '"');
        assert(s.skip(1) =~= rest);
        assert(scan_str(s) == Some((Seq::<char>::empty(), rest)));
        assert(sv =~= Seq::<char>::empty());
    } else {
        let c = sv[0];
        let sv1 = sv.skip(1);
        let s1 = esc(sv1) + seq!['"'] + rest;
        assert(esc(sv) =~= esc_char(c) + esc(sv1));
        assert(s =~= esc_char(c) + s1);
        lemma_scan_esc(sv1, rest);
        if c == '"' {
            assert(s =~= seq!['\\', '"'] + s1);
            assert(s[0] == '\\' && s[1] == '"');
            assert(s.skip(2) =~= s1);
            assert(scan_str(s) == scan_cons('"', scan_str(s1)));
            assert(seq![c] + sv1 =~= sv);
        } else if c == '\\' {
            assert(s =~= seq!['\\', '\\'] + s1);
            assert(s.skip(2) =~= s1);
            assert(seq![c] + sv1 =~= sv);
        } else if c == '\u{8}' {
            assert(s =~= seq!['\\', 'b'] + s1);
            assert(s.skip(2) =~= s1);
            assert(seq![c] + sv1 =~= sv);
        } else if c == '\t' {
            assert(s =~= seq!['\\', 't'] + s1);
            assert(s.skip(2) =~= s1);
            assert(seq![c] + sv1 =~= sv);
        } else if c == '\n' {
            assert(s =~= seq!['\\', 'n'] + s1);
            assert(s.skip(2) =~= s1);
            assert(seq![c] + sv1 =~= sv);
        } else if c == '\u{c}' {
            assert(s =~= seq!['\\', 'f'] + s1);
            assert(s.skip(2) =~= s1);
            assert(seq![c] + sv1 =~= sv);
        } else if c == '\r' {
            assert(s =~= seq!['\\', 'r'] + s1);
            assert(s.skip(2) =~= s1);
            assert(seq![c] + sv1 =~= sv);
        } else if (c as u32) < 0x20 {
            let ci = c as u32 as int;
            let hi = ci / 16;
            let lo = ci % 16;
            assert(s =~= seq!['\\', 'u', '0', '0', hex_char(hi), hex_char(lo)] + s1);
            assert(s.skip(6) =~= s1);
            lemma_hex_round(hi);
            lemma_hex_round(lo);
            assert(hex_val(s[4]) == hi && hex_val(s[5]) == lo);
            assert(hi * 16 + lo == ci);
            assert(((hi * 16 + lo) as u32) == c as u32);
            vstd::utf8::char_u32_cast(c, (hi * 16 + lo) as u32);
            assert((((hi * 16 + lo) as u32) as char) == c);
            assert(seq![c] + sv1 =~= sv);
        } else {
            assert(s =~= seq![c] + s1);
            assert(s[0] == c);
            assert(s.skip(1) =~= s1);
            assert(seq![c] + sv1 =~= sv);
        }
    }
}

/// Parsing the joined entry lines of a non-empty entry sequence recovers
/// the entries exactly.
#[verifier::rlimit(80)]
proof fn lemma_parse_inner(entries: Seq<(Seq<char>, Seq<char>)>)
    requires
        entries.len() >= 1,
    ensures
        parse_entries(join_sep(entry_lines(entries), seq![',', '\n'])) == Some(entries),
    decreases entries.len(),
{
    let k = entries[0].0;
    let v = entries[0].1;
    let el = entry_line(k, v);
    let inner = join_sep(entry_lines(entries), seq![',', '\n']);
    if entries.len() == 1 {
        assert(inner == el);
        let tail = Seq::<char>::empty();
        let rest1 = seq!['"', ':', ' ', '"'].skip(1) + esc(v) + seq!['"'] + tail;
        assert(rest1 =~= seq![':', ' ', '"'] + esc(v) + seq!['"']);
        assert(inner =~= seq![' ', ' ', '"'] + (esc(k) + seq!['"'] + rest1));
        assert(inner[0] == ' ' && inner[1] == ' ' && inner[2] == '"');
        assert(inner.skip(3) =~= esc(k) + seq!['"'] + rest1);
        lemma_scan_esc(k, rest1);
        assert(rest1[0] == ':' && rest1[1] == ' ' && rest1[2] == '"');
        assert(rest1.skip(3) =~= esc(v) + seq!['"'] + tail);
        lemma_scan_esc(v, tail);
        assert(parse_entries(inner) == Some(seq![(k, v)]));
        assert(seq![(k, v)] =~= entries);
    } else {
        let rest_entries = entries.skip(1);
        assert(entry_lines(entries).skip(1) =~= entry_lines(rest_entries));
        let inner_rest = join_sep(entry_lines(rest_entries), seq![',', '\n']);
        assert(inner =~= el + seq![',', '\n'] + inner_rest);
        let tail = seq![',', '\n'] + inner_rest;
        let rest1 = seq![':', ' ', '"'] + esc(v) + seq!['"'] + tail;
        assert(inner =~= seq![' ', ' ', '"'] + (esc(k) + seq!['"'] + rest1));
        assert(inner[0] == ' ' && inner[1] == ' ' && inner[2] == '"');
        assert(inner.skip(3) =~= esc(k) + seq!['"'] + rest1);
        lemma_scan_esc(k, rest1);
        assert(rest1[0] == ':' && rest1[1] == ' ' && rest1[2] == '"');
        assert(rest1.skip(3) =~= esc(v) + seq!['"'] + tail);
        lemma_scan_esc(v, tail);
        assert(tail.len() >= 2 && tail[0] == ',' && tail[1] == '\n');
        assert(tail.skip(2) =~= inner_rest);
        lemma_parse_inner(rest_entries);
        assert(parse_entries(inner) == Some(seq![(k, v)] + rest_entries));
        assert(seq![(k, v)] + rest_entries =~= entries);
    }
}

/// Rendering entries as a JSON report and parsing the result yields the
/// same entries, in the same order, whatever the keys and values hold.
pub proof fn lemma_json_round_trip(entries: Seq<(Seq<char>, Seq<char>)>)
    ensures
        parse_report(json_report(entries)) == Some(entries),
{
    let s = json_report(entries);
    if entries.len() == 0 {
        assert(s == seq!['{', '}']);
        assert(entries =~= Seq::<(Seq<char>, Seq<char>)>::empty());
    } else {
        let inner = join_sep(entry_lines(entries), seq![',', '\n']);
        assert(s =~= seq!['{', '\n'] + inner + seq!['\n', '}']);
        let k = entries[0].0;
        let v = entries[0].1;
        let el = entry_line(k, v);
        assert(el.len() >= 8);
        if entries.len() == 1 {
            assert(inner == el);
        } else {
            assert(inner =~= el + seq![',', '\n'] + join_sep(
                entry_lines(entries).skip(1),
                seq![',', '\n'],
            ));
            assert(inner.len() >= el.len());
        }
        assert(inner.len() >= 8);
        assert(s.len() == inner.len() + 4);
        assert(s[0] == '{' && s[1] == '\n');
        assert(s[s.len() - 2] == '\n' && s[s.len() - 1] == '}');
        assert(s != seq!['{', '}']);
        assert(s.subrange(2, s.len() - 2) =~= inner);
        lemma_parse_inner(entries);
    }
}

} // verus!
