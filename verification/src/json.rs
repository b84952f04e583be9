//! JSON text for the structured report.

use crate::text::{digits, push_decimal};
use vstd::prelude::*;

verus! {

/// The hexadecimal digit of `d`, in lower case.
pub open spec fn hex_char(d: int) -> char {
    if d == 10 {
        'a'
    } else if d == 11 {
        'b'
    } else if d == 12 {
        'c'
    } else if d == 13 {
        'd'
    } else if d == 14 {
        'e'
    } else if d == 15 {
        'f'
    } else {
        crate::text::digit_char(d)
    }
}

/// How one character stands inside a JSON string: quote and backslash
/// behind a backslash, the usual short forms for line feed, carriage return
/// and tab, `\u00XX` for the other control characters, and every other
/// character as it is.
pub open spec fn escaped_char(c: char) -> Seq<char> {
    if c == '"' {
        seq!['\\', '"']
    } else if c == '\\' {
        seq!['\\', '\\']
    } else if c == '\n' {
        seq!['\\', 'n']
    } else if c == '\r' {
        seq!['\\', 'r']
    } else if c == '\t' {
        seq!['\\', 't']
    } else if (c as int) < 0x20 {
        seq!['\\', 'u', '0', '0', hex_char((c as int) / 16), hex_char((c as int) % 16)]
    } else {
        seq![c]
    }
}

/// The characters of `s`, each as it stands inside a JSON string.
pub open spec fn escaped(s: Seq<char>) -> Seq<char>
    decreases s.len(),
{
    if s.len() == 0 {
        Seq::empty()
    } else {
        escaped(s.drop_last()) + escaped_char(s.last())
    }
}

/// The JSON string that holds `s`.
pub open spec fn json_string(s: Seq<char>) -> Seq<char> {
    seq!['"'] + escaped(s) + seq!['"']
}

fn hex_digit(d: u32) -> (c: char)
    requires
        d < 16,
    ensures
        c == hex_char(d as int),
{
    if d == 0 {
        '0'
    } else if d == 1 {
        '1'
    } else if d == 2 {
        '2'
    } else if d == 3 {
        '3'
    } else if d == 4 {
        '4'
    } else if d == 5 {
        '5'
    } else if d == 6 {
        '6'
    } else if d == 7 {
        '7'
    } else if d == 8 {
        '8'
    } else if d == 9 {
        '9'
    } else if d == 10 {
        'a'
    } else if d == 11 {
        'b'
    } else if d == 12 {
        'c'
    } else if d == 13 {
        'd'
    } else if d == 14 {
        'e'
    } else {
        'f'
    }
}

/// Appends one character as it stands inside a JSON string.
pub fn push_escaped_char(out: &mut Vec<char>, c: char)
    ensures
        final(out)@ == old(out)@ + escaped_char(c),
{
    let ghost before = out@;
    let n: u32 = c as u32;
    if c == '"' {
        out.push('\\');
        out.push('"');
    } else if c == '\\' {
        out.push('\\');
        out.push('\\');
    } else if c == '\n' {
        out.push('\\');
        out.push('n');
    } else if c == '\r' {
        out.push('\\');
        out.push('r');
    } else if c == '\t' {
        out.push('\\');
        out.push('t');
    } else if n < 0x20 {
        out.push('\\');
        out.push('u');
        out.push('0');
        out.push('0');
        out.push(hex_digit(n / 16));
        out.push(hex_digit(n % 16));
    } else {
        out.push(c);
    }
    assert(out@ == before + escaped_char(c));
}

/// Appends the JSON string that holds the characters of `s`.
pub fn push_json_string(out: &mut Vec<char>, s: &str)
    ensures
        final(out)@ == old(out)@ + json_string(s@),
{
    let ghost before = out@;
    out.push('"');
    for c in it: s.chars()
        invariant
            it.seq() == s@,
            out@ == before.push('"') + escaped(s@.take(it.index())),
    {
        push_escaped_char(out, c);
        proof {
            let t = s@.take(it.index() + 1);
            assert(t.drop_last() == s@.take(it.index()));
            assert(t.last() == c);
            assert(out@ == before.push('"') + escaped(t));
        }
    }
    out.push('"');
    proof {
        assert(s@.take(s@.len() as int) == s@);
        assert(out@ == before + json_string(s@));
    }
}

/// Appends `"name":` and the decimal numeral of `value`.
pub fn push_number_field(out: &mut Vec<char>, name: &str, value: usize)
    ensures
        final(out)@ == old(out)@ + json_string(name@) + seq![':'] + digits(value as nat),
{
    push_json_string(out, name);
    out.push(':');
    push_decimal(out, value);
}

/// Appends `"name":` and the JSON string that holds `value`.
pub fn push_string_field(out: &mut Vec<char>, name: &str, value: &str)
    ensures
        final(out)@ == old(out)@ + json_string(name@) + seq![':'] + json_string(value@),
{
    push_json_string(out, name);
    out.push(':');
    push_json_string(out, value);
}

} // verus!
