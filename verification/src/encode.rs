//! The report text format, one `key = "value"` line per field: escaping of
//! string values, the exact form of a line, and the spec-level inverse that
//! the round-trip law is proved against.
//!
//! A value is written between double quotes. The characters `"` and `\` and
//! the common control characters get two-character escapes; any other control
//! character (and delete) is written as `\u00` followed by two upper-case
//! hexadecimal digits. Everything else is written as itself, so a value never
//! contains a raw quote, backslash or line break.

use vstd::prelude::*;
use crate::caps::push_char;

verus! {

/// The upper-case hexadecimal digit for a value below 16.
pub open spec fn hex_digit(n: int) -> char {
    if n == 0 { '0' } else if n == 1 { '1' } else if n == 2 { '2' } else if n == 3 { '3' }
    else if n == 4 { '4' } else if n == 5 { '5' } else if n == 6 { '6' } else if n == 7 { '7' }
    else if n == 8 { '8' } else if n == 9 { '9' } else if n == 10 { 'A' } else if n == 11 { 'B' }
    else if n == 12 { 'C' } else if n == 13 { 'D' } else if n == 14 { 'E' } else { 'F' }
}

/// The value of an upper-case hexadecimal digit, `None` for any other character.
pub open spec fn from_hex(c: char) -> Option<int> {
    if c == '0' { Some(0) } else if c == '1' { Some(1) } else if c == '2' { Some(2) }
    else if c == '3' { Some(3) } else if c == '4' { Some(4) } else if c == '5' { Some(5) }
    else if c == '6' { Some(6) } else if c == '7' { Some(7) } else if c == '8' { Some(8) }
    else if c == '9' { Some(9) } else if c == 'A' { Some(10) } else if c == 'B' { Some(11) }
    else if c == 'C' { Some(12) } else if c == 'D' { Some(13) } else if c == 'E' { Some(14) }
    else if c == 'F' { Some(15) } else { None }
}

/// How one character of a value is written inside the quotes.
pub open spec fn escape_char(c: char) -> Seq<char> {
    if c == '"' { seq!['\\', '"'] }
    else if c == '\\' { seq!['\\', '\\'] }
    else if c == '\u{8}' { seq!['\\', 'b'] }
    else if c == '\t' { seq!['\\', 't'] }
    else if c == '\n' { seq!['\\', 'n'] }
    else if c == '\u{c}' { seq!['\\', 'f'] }
    else if c == '\r' { seq!['\\', 'r'] }
    else if (c as u32) < 0x20 || (c as u32) == 0x7f {
        seq!['\\', 'u', '0', '0', hex_digit((c as u32) as int / 16), hex_digit((c as u32) as int % 16)]
    } else {
        seq![c]
    }
}

/// How a whole value is written inside the quotes.
pub open spec fn escape_string(s: Seq<char>) -> Seq<char>
    decreases s.len(),
{
    if s.len() == 0 {
        Seq::empty()
    } else {
        escape_char(s[0]) + escape_string(s.skip(1))
    }
}

/// One line of the report text: `key = "escaped value"` and a line break.
pub open spec fn kv_line(key: Seq<char>, value: Seq<char>) -> Seq<char> {
    key + " = \""@ + escape_string(value) + "\"\n"@
}

/// Prepends one decoded character to the result of decoding the remainder.
pub open spec fn prepend_decoded(c: char, rest: Option<Seq<char>>) -> Option<Seq<char>> {
    match rest {
        Some(t) => Some(seq![c] + t),
        None => None,
    }
}

/// The inverse of `escape_string`: reads escapes back, `None` on malformed
/// input.
pub open spec fn unescape(s: Seq<char>) -> Option<Seq<char>>
    decreases s.len(),
{
    if s.len() == 0 {
        Some(Seq::empty())
    } else if s[0] == '\\' {
        if s.len() < 2 {
            None
        } else if s[1] == '"' { prepend_decoded('"', unescape(s.skip(2))) }
        else if s[1] == '\\' { prepend_decoded('\\', unescape(s.skip(2))) }
        else if s[1] == 'b' { prepend_decoded('\u{8}', unescape(s.skip(2))) }
        else if s[1] == 't' { prepend_decoded('\t', unescape(s.skip(2))) }
        else if s[1] == 'n' { prepend_decoded('\n', unescape(s.skip(2))) }
        else if s[1] == 'f' { prepend_decoded('\u{c}', unescape(s.skip(2))) }
        else if s[1] == 'r' { prepend_decoded('\r', unescape(s.skip(2))) }
        else if s[1] == 'u' {
            if s.len() < 6 {
                None
            } else if from_hex(s[2]) is Some && from_hex(s[3]) is Some && from_hex(s[4]) is Some
                && from_hex(s[5]) is Some {
                let v = from_hex(s[2]).unwrap() * 4096 + from_hex(s[3]).unwrap() * 256
                    + from_hex(s[4]).unwrap() * 16 + from_hex(s[5]).unwrap();
                if v < 0xD800 {
                    prepend_decoded((v as u32) as char, unescape(s.skip(6)))
                } else {
                    None
                }
            } else {
                None
            }
        } else {
            None
        }
    } else {
        prepend_decoded(s[0], unescape(s.skip(1)))
    }
}

/// Splits a quoted value off the front of the text: the raw escaped value and
/// the text after the closing quote. `None` if no closing quote comes before
/// the end of the line.
pub open spec fn scan_value(s: Seq<char>) -> Option<(Seq<char>, Seq<char>)>
    decreases s.len(),
{
    if s.len() == 0 {
        None
    } else if s[0] == '"' {
        Some((Seq::empty(), s.skip(1)))
    } else if s[0] == '\n' {
        None
    } else if s[0] == '\\' {
        if s.len() < 2 {
            None
        } else {
            match scan_value(s.skip(2)) {
                Some(p) => Some((seq![s[0], s[1]] + p.0, p.1)),
                None => None,
            }
        }
    } else {
        match scan_value(s.skip(1)) {
            Some(p) => Some((seq![s[0]] + p.0, p.1)),
            None => None,
        }
    }
}

/// Whether `p` is a prefix of `s`.
pub open spec fn starts_with(s: Seq<char>, p: Seq<char>) -> bool {
    s.len() >= p.len() && s.subrange(0, p.len() as int) == p
}

/// Reads one `key = "value"` line off the front of the text: the decoded
/// value and the text after the line break. `None` if the text does not start
/// with such a line for this key.
pub open spec fn decode_value_line(s: Seq<char>, key: Seq<char>) -> Option<(Seq<char>, Seq<char>)> {
    let p = key + " = \""@;
    if starts_with(s, p) {
        match scan_value(s.skip(p.len() as int)) {
            Some(raw_rest) => match unescape(raw_rest.0) {
                Some(v) => if raw_rest.1.len() >= 1 && raw_rest.1[0] == '\n' {
                    Some((v, raw_rest.1.skip(1)))
                } else {
                    None
                },
                None => None,
            },
            None => None,
        }
    } else {
        None
    }
}

/// Reading back the digit a value below 16 was written as recovers the value.
pub proof fn lemma_from_hex_digit(n: int)
    requires
        0 <= n < 16,
    ensures
        from_hex(hex_digit(n)) == Some(n),
{
}

/// Reading escapes back undoes the escaping of one character, whatever
/// follows it.
pub proof fn lemma_unescape_escape_char(c: char, rest: Seq<char>)
    ensures
        unescape(escape_char(c) + rest) == prepend_decoded(c, unescape(rest)),
{
    let s = escape_char(c) + rest;
    if c == '"' || c == '\\' || c == '\u{8}' || c == '\t' || c == '\n' || c == '\u{c}'
        || c == '\r' {
        assert(s.skip(2) =~= rest);
    } else if (c as u32) < 0x20 || (c as u32) == 0x7f {
        assert(s.skip(6) =~= rest);
        let v32: u32 = c as u32;
        let hi: int = (v32 as int) / 16;
        let lo: int = (v32 as int) % 16;
        lemma_from_hex_digit(hi);
        lemma_from_hex_digit(lo);
        assert(from_hex('0') == Some::<int>(0));
        let v: int = 0 * 4096 + 0 * 256 + hi * 16 + lo;
        assert(v == v32 as int);
        vstd::utf8::char_u32_cast(c, v32);
        assert((v as u32) as char == c);
    } else {
        assert(s[0] != '\\');
        assert(s.skip(1) =~= rest);
    }
}

/// Escaping distributes over concatenation of values.
pub proof fn lemma_escape_string_concat(a: Seq<char>, b: Seq<char>)
    ensures
        escape_string(a + b) == escape_string(a) + escape_string(b),
    decreases a.len(),
{
    if a.len() == 0 {
        assert(a + b =~= b);
        assert(escape_string(a) + escape_string(b) =~= escape_string(b));
    } else {
        assert((a + b).skip(1) =~= a.skip(1) + b);
        lemma_escape_string_concat(a.skip(1), b);
        assert(escape_char(a[0]) + (escape_string(a.skip(1)) + escape_string(b)) =~= (escape_char(
            a[0],
        ) + escape_string(a.skip(1))) + escape_string(b));
    }
}

/// Extending the escaped prefix of a value by one character.
pub proof fn lemma_escape_string_snoc(s: Seq<char>, i: int)
    requires
        0 <= i < s.len(),
    ensures
        escape_string(s.subrange(0, i + 1)) == escape_string(s.subrange(0, i)) + escape_char(s[i]),
{
    let single = seq![s[i]];
    assert(s.subrange(0, i + 1) =~= s.subrange(0, i) + single);
    lemma_escape_string_concat(s.subrange(0, i), single);
    assert(single.skip(1) =~= Seq::<char>::empty());
    assert(escape_string(single.skip(1)) == Seq::<char>::empty());
    assert(escape_string(single) == escape_char(single[0]) + escape_string(single.skip(1)));
    assert(escape_string(single) =~= escape_char(s[i]));
}

/// Reading escapes back undoes the escaping of a whole value.
pub proof fn lemma_unescape_escape_string(s: Seq<char>)
    ensures
        unescape(escape_string(s)) == Some(s),
    decreases s.len(),
{
    if s.len() == 0 {
        assert(s =~= Seq::<char>::empty());
    } else {
        lemma_unescape_escape_string(s.skip(1));
        lemma_unescape_escape_char(s[0], escape_string(s.skip(1)));
        assert(seq![s[0]] + s.skip(1) =~= s);
    }
}

/// Scanning past one character that stands for itself keeps it in the raw
/// value.
proof fn lemma_scan_value_raw(c: char, tail: Seq<char>)
    requires
        c != '"',
        c != '\n',
        c != '\\',
        scan_value(tail) is Some,
    ensures
        scan_value(seq![c] + tail) == Some(
            (seq![c] + scan_value(tail).unwrap().0, scan_value(tail).unwrap().1),
        ),
{
    assert((seq![c] + tail).skip(1) =~= tail);
}

/// Scanning past the escaped form of one character keeps exactly that form in
/// the raw value.
proof fn lemma_scan_value_escape_char(c: char, tail: Seq<char>)
    requires
        scan_value(tail) is Some,
    ensures
        scan_value(escape_char(c) + tail) == Some(
            (escape_char(c) + scan_value(tail).unwrap().0, scan_value(tail).unwrap().1),
        ),
{
    let v = scan_value(tail).unwrap().0;
    let e = escape_char(c);
    let s = e + tail;
    if c == '"' || c == '\\' || c == '\u{8}' || c == '\t' || c == '\n' || c == '\u{c}'
        || c == '\r' {
        assert(s[0] == '\\');
        assert(s.skip(2) =~= tail);
        assert(seq![s[0], s[1]] + v =~= e + v);
    } else if (c as u32) < 0x20 || (c as u32) == 0x7f {
        let hi_c = hex_digit((c as u32) as int / 16);
        let lo_c = hex_digit((c as u32) as int % 16);
        assert(lo_c != '"' && lo_c != '\n' && lo_c != '\\');
        assert(hi_c != '"' && hi_c != '\n' && hi_c != '\\');
        lemma_scan_value_raw(lo_c, tail);
        let t1 = seq![lo_c] + tail;
        lemma_scan_value_raw(hi_c, t1);
        let t2 = seq![hi_c] + t1;
        lemma_scan_value_raw('0', t2);
        let t3 = seq!['0'] + t2;
        lemma_scan_value_raw('0', t3);
        let t4 = seq!['0'] + t3;
        assert(s[0] == '\\' && s[1] == 'u');
        assert(s.skip(2) =~= t4);
        assert(scan_value(t4).unwrap().1 == scan_value(tail).unwrap().1);
        assert(seq![s[0], s[1]] + scan_value(t4).unwrap().0 =~= e + v);
    } else {
        lemma_scan_value_raw(c, tail);
        assert(seq![c] + tail =~= s);
        assert(seq![c] + v =~= e + v);
    }
}

/// Scanning past the escaped form of a whole value keeps exactly that form in
/// the raw value.
proof fn lemma_scan_value_escape_string(sv: Seq<char>, tail: Seq<char>)
    requires
        scan_value(tail) is Some,
    ensures
        scan_value(escape_string(sv) + tail) == Some(
            (escape_string(sv) + scan_value(tail).unwrap().0, scan_value(tail).unwrap().1),
        ),
    decreases sv.len(),
{
    let v = scan_value(tail).unwrap().0;
    if sv.len() == 0 {
        assert(escape_string(sv) + tail =~= tail);
        assert(escape_string(sv) + v =~= v);
    } else {
        lemma_scan_value_escape_string(sv.skip(1), tail);
        lemma_scan_value_escape_char(sv[0], escape_string(sv.skip(1)) + tail);
        assert(escape_char(sv[0]) + (escape_string(sv.skip(1)) + tail) =~= escape_string(sv)
            + tail);
        assert(escape_char(sv[0]) + (escape_string(sv.skip(1)) + v) =~= escape_string(sv) + v);
    }
}

/// Reading a line back undoes writing it: for any key, value and following
/// text, decoding the written line yields the value and that text.
pub proof fn lemma_decode_kv_line(key: Seq<char>, value: Seq<char>, rest: Seq<char>)
    ensures
        decode_value_line(kv_line(key, value) + rest, key) == Some((value, rest)),
{
    reveal_strlit("\"\n");
    let p = key + " = \""@;
    let s = kv_line(key, value) + rest;
    let qnl = "\"\n"@;
    assert(qnl.len() == 2 && qnl[0] == '"' && qnl[1] == '\n');
    let tail0 = seq!['\n'] + rest;
    let tail1 = seq!['"'] + tail0;
    assert(s =~= p + (escape_string(value) + tail1));
    assert(s.subrange(0, p.len() as int) =~= p);
    assert(starts_with(s, p));
    assert(s.skip(p.len() as int) =~= escape_string(value) + tail1);
    assert(tail1.skip(1) =~= tail0);
    assert(scan_value(tail1) == Some((Seq::<char>::empty(), tail0)));
    lemma_scan_value_escape_string(value, tail1);
    assert(escape_string(value) + Seq::<char>::empty() =~= escape_string(value));
    assert(scan_value(s.skip(p.len() as int)) == Some((escape_string(value), tail0)));
    lemma_unescape_escape_string(value);
    assert(tail0[0] == '\n');
    assert(tail0.skip(1) =~= rest);
}

/// The upper-case hexadecimal digit for a value below 16.
fn hex_char(n: u8) -> (c: char)
    requires
        n < 16,
    ensures
        c == hex_digit(n as int),
{
    if n == 0 { '0' } else if n == 1 { '1' } else if n == 2 { '2' } else if n == 3 { '3' }
    else if n == 4 { '4' } else if n == 5 { '5' } else if n == 6 { '6' } else if n == 7 { '7' }
    else if n == 8 { '8' } else if n == 9 { '9' } else if n == 10 { 'A' } else if n == 11 { 'B' }
    else if n == 12 { 'C' } else if n == 13 { 'D' } else if n == 14 { 'E' } else { 'F' }
}

/// Appends the escaped form of one character of a value.
pub(crate) fn append_escaped_char(out: &mut String, c: char)
    ensures
        final(out)@ == old(out)@ + escape_char(c),
{
    if c == '"' {
        push_char(out, '\\');
        push_char(out, '"');
    } else if c == '\\' {
        push_char(out, '\\');
        push_char(out, '\\');
    } else if c == '\u{8}' {
        push_char(out, '\\');
        push_char(out, 'b');
    } else if c == '\t' {
        push_char(out, '\\');
        push_char(out, 't');
    } else if c == '\n' {
        push_char(out, '\\');
        push_char(out, 'n');
    } else if c == '\u{c}' {
        push_char(out, '\\');
        push_char(out, 'f');
    } else if c == '\r' {
        push_char(out, '\\');
        push_char(out, 'r');
    } else {
        let v: u32 = c as u32;
        if v < 0x20 || v == 0x7f {
            push_char(out, '\\');
            push_char(out, 'u');
            push_char(out, '0');
            push_char(out, '0');
            let hi: u8 = (v / 16) as u8;
            let lo: u8 = (v % 16) as u8;
            push_char(out, hex_char(hi));
            push_char(out, hex_char(lo));
        } else {
            push_char(out, c);
        }
    }
    proof {
        assert(out@ =~= old(out)@ + escape_char(c));
    }
}

/// Appends the escaped form of a whole value.
pub(crate) fn append_escaped(out: &mut String, value: &str)
    ensures
        final(out)@ == old(out)@ + escape_string(value@),
{
    let ghost out0 = out@;
    let n: usize = value.unicode_len();
    let mut i: usize = 0;
    proof {
        assert(out0 + escape_string(value@.subrange(0, 0)) =~= out0);
    }
    while i < n
        invariant
            n == value@.len(),
            i <= n,
            out@ == out0 + escape_string(value@.subrange(0, i as int)),
        decreases n - i,
    {
        let c = value.get_char(i);
        append_escaped_char(out, c);
        proof {
            lemma_escape_string_snoc(value@, i as int);
            assert(out@ =~= out0 + escape_string(value@.subrange(0, i as int + 1)));
        }
        i += 1;
    }
    proof {
        assert(value@.subrange(0, n as int) =~= value@);
    }
}

/// Appends one full line of the report text.
pub(crate) fn append_kv_line(out: &mut String, key: &str, value: &str)
    ensures
        final(out)@ == old(out)@ + kv_line(key@, value@),
{
    out.append(key);
    out.append(" = \"");
    append_escaped(out, value);
    out.append("\"\n");
    proof {
        assert(out@ =~= old(out)@ + kv_line(key@, value@));
    }
}

} // verus!
