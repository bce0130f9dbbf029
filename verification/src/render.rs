//! Report rendering: a single dated password or an ordered collection of
//! them, as plain text or as a pretty-printed JSON object.

use vstd::prelude::*;

verus! {

pub open spec fn hex_char(n: int) -> char {
    if n == 0 {
        '0'
    } else if n == 1 {
        '1'
    } else if n == 2 {
        '2'
    } else if n == 3 {
        '3'
    } else if n == 4 {
        '4'
    } else if n == 5 {
        '5'
    } else if n == 6 {
        '6'
    } else if n == 7 {
        '7'
    } else if n == 8 {
        '8'
    } else if n == 9 {
        '9'
    } else if n == 10 {
        'a'
    } else if n == 11 {
        'b'
    } else if n == 12 {
        'c'
    } else if n == 13 {
        'd'
    } else if n == 14 {
        'e'
    } else {
        'f'
    }
}

/// The JSON escape of one character: quote and backslash escaped, control
/// characters as their short escapes or as `\u00XX`, everything else as
/// itself.
pub open spec fn esc_char(c: char) -> Seq<char> {
    if c == '"' {
        seq!['\\', '"']
    } else if c == '\\' {
        seq!['\\', '\\']
    } else if c == '\u{8}' {
        seq!['\\', 'b']
    } else if c == '\t' {
        seq!['\\', 't']
    } else if c == '\n' {
        seq!['\\', 'n']
    } else if c == '\u{c}' {
        seq!['\\', 'f']
    } else if c == '\r' {
        seq!['\\', 'r']
    } else if (c as u32) < 0x20 {
        seq!['\\', 'u', '0', '0', hex_char(c as u32 as int / 16), hex_char(c as u32 as int % 16)]
    } else {
        seq![c]
    }
}

/// The JSON escape of a whole string.
pub open spec fn esc(s: Seq<char>) -> Seq<char>
    decreases s.len(),
{
    if s.len() == 0 {
        Seq::empty()
    } else {
        esc_char(s[0]) + esc(s.skip(1))
    }
}

pub proof fn lemma_esc_app(a: Seq<char>, b: Seq<char>)
    ensures
        esc(a + b) == esc(a) + esc(b),
    decreases a.len(),
{
    if a.len() == 0 {
        assert(a + b =~= b);
        assert(esc(a) + esc(b) =~= esc(b));
    } else {
        lemma_esc_app(a.skip(1), b);
        assert((a + b).skip(1) =~= a.skip(1) + b);
        assert(esc(a + b) =~= esc(a) + esc(b));
    }
}

/// Lines joined by a separator, with nothing after the last.
pub open spec fn join_sep(lines: Seq<Seq<char>>, sep: Seq<char>) -> Seq<char>
    decreases lines.len(),
{
    if lines.len() == 0 {
        Seq::empty()
    } else if lines.len() == 1 {
        lines[0]
    } else {
        lines[0] + sep + join_sep(lines.skip(1), sep)
    }
}

pub proof fn lemma_join_push(lines: Seq<Seq<char>>, l: Seq<char>, sep: Seq<char>)
    ensures
        lines.len() == 0 ==> join_sep(lines.push(l), sep) == l,
        lines.len() > 0 ==> join_sep(lines.push(l), sep) == join_sep(lines, sep) + sep + l,
    decreases lines.len(),
{
    if lines.len() == 0 {
        assert(lines.push(l)[0] == l);
    } else if lines.len() == 1 {
        assert(lines.push(l).skip(1) =~= seq![l]);
        assert(join_sep(seq![l], sep) == l);
        assert(join_sep(lines.push(l), sep) =~= join_sep(lines, sep) + sep + l);
    } else {
        lemma_join_push(lines.skip(1), l, sep);
        assert(lines.push(l).skip(1) =~= lines.skip(1).push(l));
        assert(join_sep(lines.push(l), sep) =~= join_sep(lines, sep) + sep + l);
    }
}

/// One entry of the JSON object, as pretty-printed with two-space
/// indentation: `  "key": "value"`.
pub open spec fn entry_line(k: Seq<char>, v: Seq<char>) -> Seq<char> {
    seq![' ', ' ', '"'] + esc(k) + seq!['"', ':', ' ', '"'] + esc(v) + seq!['"']
}

pub open spec fn entry_lines(entries: Seq<(Seq<char>, Seq<char>)>) -> Seq<Seq<char>> {
    entries.map_values(|e: (Seq<char>, Seq<char>)| entry_line(e.0, e.1))
}

/// The JSON report: an object with one member per entry, in the entries'
/// order, pretty-printed with two-space indentation.
pub open spec fn json_report(entries: Seq<(Seq<char>, Seq<char>)>) -> Seq<char> {
    if entries.len() == 0 {
        seq!['{', '}']
    } else {
        seq!['{', '\n'] + join_sep(entry_lines(entries), seq![',', '\n']) + seq!['\n', '}']
    }
}

/// One line of the plain-text range report: `date:<TAB>password`.
pub open spec fn text_line(k: Seq<char>, v: Seq<char>) -> Seq<char> {
    k + seq![':', '\t'] + v
}

pub open spec fn text_lines(entries: Seq<(Seq<char>, Seq<char>)>) -> Seq<Seq<char>> {
    entries.map_values(|e: (Seq<char>, Seq<char>)| text_line(e.0, e.1))
}

/// The plain-text range report: one line per entry, joined by newlines,
/// with no trailing newline.
pub open spec fn text_report(entries: Seq<(Seq<char>, Seq<char>)>) -> Seq<char> {
    join_sep(text_lines(entries), seq!['\n'])
}

/// The plain-text single-date report: `date: <TAB>password`.
pub open spec fn single_text(k: Seq<char>, v: Seq<char>) -> Seq<char> {
    k + seq![':', ' ', '\t'] + v
}

/// The pairs of character sequences that a vector of character-vector
/// pairs stands for.
pub open spec fn entries_view(v: Seq<(Vec<char>, Vec<char>)>) -> Seq<(Seq<char>, Seq<char>)> {
    Seq::new(v.len(), |i: int| (v[i].0@, v[i].1@))
}

fn hex_of(n: u32) -> (r: char)
    requires
        n <= 15,
    ensures
        r == hex_char(n as int),
{
    match n {
        0 => '0',
        1 => '1',
        2 => '2',
        3 => '3',
        4 => '4',
        5 => '5',
        6 => '6',
        7 => '7',
        8 => '8',
        9 => '9',
        10 => 'a',
        11 => 'b',
        12 => 'c',
        13 => 'd',
        14 => 'e',
        _ => 'f',
    }
}

fn esc_char_append(out: &mut Vec<char>, c: char)
    ensures
        final(out)@ == old(out)@ + esc_char(c),
{
    if c == '"' {
        out.push('\\');
        out.push('"');
    } else if c == '\\' {
        out.push('\\');
        out.push('\\');
    } else if c == '\u{8}' {
        out.push('\\');
        out.push('b');
    } else if c == '\t' {
        out.push('\\');
        out.push('t');
    } else if c == '\n' {
        out.push('\\');
        out.push('n');
    } else if c == '\u{c}' {
        out.push('\\');
        out.push('f');
    } else if c == '\r' {
        out.push('\\');
        out.push('r');
    } else if (c as u32) < 0x20 {
        out.push('\\');
        out.push('u');
        out.push('0');
        out.push('0');
        out.push(hex_of((c as u32) / 16));
        out.push(hex_of((c as u32) % 16));
    } else {
        out.push(c);
    }
    proof {
        assert(final(out)@ =~= old(out)@ + esc_char(c));
    }
}

fn esc_append(out: &mut Vec<char>, s: &Vec<char>)
    ensures
        final(out)@ == old(out)@ + esc(s@),
{
    let n = s.len();
    let mut i: usize = 0;
    while i < n
        invariant
            n == s@.len(),
            i <= n,
            out@ == old(out)@ + esc(s@.take(i as int)),
        decreases n - i,
    {
        esc_char_append(out, s[i]);
        proof {
            assert(s@.take(i + 1) =~= s@.take(i as int) + seq![s@[i as int]]);
            lemma_esc_app(s@.take(i as int), seq![s@[i as int]]);
            assert(seq![s@[i as int]].skip(1) =~= Seq::<char>::empty());
            assert(esc(Seq::<char>::empty()) =~= Seq::<char>::empty());
            assert(esc(seq![s@[i as int]]) =~= esc_char(s@[i as int]));
            assert(out@ =~= old(out)@ + esc(s@.take(i + 1)));
        }
        i = i + 1;
    }
    proof {
        assert(s@.take(n as int) =~= s@);
    }
}

fn entry_line_append(out: &mut Vec<char>, k: &Vec<char>, v: &Vec<char>)
    ensures
        final(out)@ == old(out)@ + entry_line(k@, v@),
{
    out.push(' ');
    out.push(' ');
    out.push('"');
    esc_append(out, k);
    out.push('"');
    out.push(':');
    out.push(' ');
    out.push('"');
    esc_append(out, v);
    out.push('"');
    proof {
        assert(final(out)@ =~= old(out)@ + entry_line(k@, v@));
    }
}

/// Render the entries as the pretty-printed JSON object, in order.
pub fn render_json(entries: &Vec<(Vec<char>, Vec<char>)>) -> (r: Vec<char>)
    ensures
        r@ == json_report(entries_view(entries@)),
{
    let n = entries.len();
    let mut out: Vec<char> = Vec::new();
    if n == 0 {
        out.push('{');
        out.push('}');
        proof {
            assert(out@ =~= json_report(entries_view(entries@)));
        }
        return out;
    }
    out.push('{');
    out.push('\n');
    let mut i: usize = 0;
    while i < n
        invariant
            n == entries@.len(),
            0 < n,
            i <= n,
            out@ == seq!['{', '\n'] + join_sep(
                entry_lines(entries_view(entries@).take(i as int)),
                seq![',', '\n'],
            ),
        decreases n - i,
    {
        if i > 0 {
            out.push(',');
            out.push('\n');
        }
        entry_line_append(&mut out, &entries[i].0, &entries[i].1);
        proof {
            let ev = entries_view(entries@);
            assert(entry_lines(ev.take(i + 1)) =~= entry_lines(ev.take(i as int)).push(
                entry_line(ev[i as int].0, ev[i as int].1),
            ));
            lemma_join_push(
                entry_lines(ev.take(i as int)),
                entry_line(ev[i as int].0, ev[i as int].1),
                seq![',', '\n'],
            );
            assert(out@ =~= seq!['{', '\n'] + join_sep(
                entry_lines(ev.take(i + 1)),
                seq![',', '\n'],
            ));
        }
        i = i + 1;
    }
    out.push('\n');
    out.push('}');
    proof {
        assert(entries_view(entries@).take(n as int) =~= entries_view(entries@));
        assert(out@ =~= json_report(entries_view(entries@)));
    }
    out
}

/// Append the characters of `s` to `out`.
pub fn append_chars(out: &mut Vec<char>, s: &Vec<char>)
    ensures
        final(out)@ == old(out)@ + s@,
{
    let n = s.len();
    let mut i: usize = 0;
    while i < n
        invariant
            n == s@.len(),
            i <= n,
            out@ == old(out)@ + s@.take(i as int),
        decreases n - i,
    {
        out.push(s[i]);
        proof {
            assert(out@ =~= old(out)@ + s@.take(i + 1));
        }
        i = i + 1;
    }
    proof {
        assert(old(out)@ + s@.take(n as int) =~= old(out)@ + s@);
    }
}

fn text_line_append(out: &mut Vec<char>, k: &Vec<char>, v: &Vec<char>)
    ensures
        final(out)@ == old(out)@ + text_line(k@, v@),
{
    append_chars(out, k);
    out.push(':');
    out.push('\t');
    append_chars(out, v);
    proof {
        assert(final(out)@ =~= old(out)@ + text_line(k@, v@));
    }
}

/// Render the entries as the plain-text range report, one line per entry.
pub fn render_text(entries: &Vec<(Vec<char>, Vec<char>)>) -> (r: Vec<char>)
    ensures
        r@ == text_report(entries_view(entries@)),
{
    let n = entries.len();
    let mut out: Vec<char> = Vec::new();
    let mut i: usize = 0;
    while i < n
        invariant
            n == entries@.len(),
            i <= n,
            out@ == text_report(entries_view(entries@).take(i as int)),
        decreases n - i,
    {
        if i > 0 {
            out.push('\n');
        }
        text_line_append(&mut out, &entries[i].0, &entries[i].1);
        proof {
            let ev = entries_view(entries@);
            assert(text_lines(ev.take(i + 1)) =~= text_lines(ev.take(i as int)).push(
                text_line(ev[i as int].0, ev[i as int].1),
            ));
            lemma_join_push(
                text_lines(ev.take(i as int)),
                text_line(ev[i as int].0, ev[i as int].1),
                seq!['\n'],
            );
            assert(out@ =~= text_report(ev.take(i + 1)));
        }
        i = i + 1;
    }
    proof {
        assert(entries_view(entries@).take(n as int) =~= entries_view(entries@));
    }
    out
}

/// Render a single dated password as its one-line text form.
pub fn render_single_text(k: &Vec<char>, v: &Vec<char>) -> (r: Vec<char>)
    ensures
        r@ == single_text(k@, v@),
{
    let mut out: Vec<char> = Vec::new();
    append_chars(&mut out, k);
    out.push(':');
    out.push(' ');
    out.push('\t');
    append_chars(&mut out, v);
    proof {
        assert(out@ =~= single_text(k@, v@));
    }
    out
}

} // verus!
