//! Character classes that the correction rules are keyed by.

use vstd::prelude::*;

verus! {

/// The class of a character, as far as the rules tell characters apart.
#[derive(Clone, Copy, Debug, PartialEq, Eq, Structural)]
pub enum CharClass {
    /// A Han ideograph, a kana, a bopomofo letter or a hangul.
    Cjk,
    /// An ASCII letter.
    Letter,
    /// An ASCII digit, or a full-width digit, which is spaced like one.
    Digit,
    /// A blank, a tab, a line break or an ideographic space.
    Space,
    /// A quotation mark, ASCII or typographic.
    Quote,
    /// Punctuation of the CJK and full-width blocks.
    CjkPunct,
    /// Any other printable ASCII character.
    AsciiPunct,
    /// Everything else.
    Other,
}

/// The code point lies in one of the blocks that hold CJK letters.
pub open spec fn cjk_code(n: int) -> bool {
    ||| 0x1100 <= n <= 0x11FF
    ||| 0x2E80 <= n <= 0x2FDF
    ||| 0x3005 <= n <= 0x3007
    ||| 0x3041 <= n <= 0x3096
    ||| 0x30A1 <= n <= 0x30FA
    ||| 0x3105 <= n <= 0x312F
    ||| 0x3131 <= n <= 0x318E
    ||| 0x31A0 <= n <= 0x31BF
    ||| 0x31F0 <= n <= 0x31FF
    ||| 0x3400 <= n <= 0x4DBF
    ||| 0x4E00 <= n <= 0x9FFF
    ||| 0xAC00 <= n <= 0xD7A3
    ||| 0xF900 <= n <= 0xFAFF
    ||| 0x20000 <= n <= 0x2FA1F
    ||| 0x30000 <= n <= 0x323AF
}

/// The code point is an ASCII letter.
pub open spec fn letter_code(n: int) -> bool {
    0x41 <= n <= 0x5A || 0x61 <= n <= 0x7A
}

/// The code point is an ASCII digit or a full-width digit.
pub open spec fn digit_code(n: int) -> bool {
    0x30 <= n <= 0x39 || 0xFF10 <= n <= 0xFF19
}

/// The code point is white space.
pub open spec fn space_code(n: int) -> bool {
    n == 0x20 || 0x09 <= n <= 0x0D || n == 0x3000
}

/// The code point is a quotation mark.
pub open spec fn quote_code(n: int) -> bool {
    ||| n == 0x22
    ||| n == 0x27
    ||| n == 0x60
    ||| n == 0x2018
    ||| n == 0x2019
    ||| n == 0x201C
    ||| n == 0x201D
    ||| 0x300C <= n <= 0x300F
}

/// The code point is punctuation of the CJK or full-width blocks.
pub open spec fn cjk_punct_code(n: int) -> bool {
    ||| 0x3001 <= n <= 0x3004
    ||| 0x3008 <= n <= 0x300B
    ||| 0x3010 <= n <= 0x303F
    ||| n == 0x30FB
    ||| 0xFF01 <= n <= 0xFF0F
    ||| 0xFF1A <= n <= 0xFF20
    ||| 0xFF3B <= n <= 0xFF40
    ||| 0xFF5B <= n <= 0xFF65
}

/// The class of the code point `n`. The tests are made in this order, so
/// that each code point has one class.
pub open spec fn class_of_code(n: int) -> CharClass {
    if cjk_code(n) {
        CharClass::Cjk
    } else if letter_code(n) {
        CharClass::Letter
    } else if digit_code(n) {
        CharClass::Digit
    } else if space_code(n) {
        CharClass::Space
    } else if quote_code(n) {
        CharClass::Quote
    } else if cjk_punct_code(n) {
        CharClass::CjkPunct
    } else if 0x21 <= n <= 0x7E {
        CharClass::AsciiPunct
    } else {
        CharClass::Other
    }
}

/// The class of the character `c`.
pub open spec fn class_of(c: char) -> CharClass {
    class_of_code(c as int)
}

fn in_range(n: u32, lo: u32, hi: u32) -> (b: bool)
    ensures
        b == (lo <= n <= hi),
{
    lo <= n && n <= hi
}

fn is_cjk_code(n: u32) -> (b: bool)
    ensures
        b == cjk_code(n as int),
{
    in_range(n, 0x1100, 0x11FF) || in_range(n, 0x2E80, 0x2FDF) || in_range(n, 0x3005, 0x3007)
        || in_range(n, 0x3041, 0x3096) || in_range(n, 0x30A1, 0x30FA) || in_range(
        n,
        0x3105,
        0x312F,
    ) || in_range(n, 0x3131, 0x318E) || in_range(n, 0x31A0, 0x31BF) || in_range(n, 0x31F0, 0x31FF)
        || in_range(n, 0x3400, 0x4DBF) || in_range(n, 0x4E00, 0x9FFF) || in_range(
        n,
        0xAC00,
        0xD7A3,
    ) || in_range(n, 0xF900, 0xFAFF) || in_range(n, 0x20000, 0x2FA1F) || in_range(
        n,
        0x30000,
        0x323AF,
    )
}

fn is_quote_code(n: u32) -> (b: bool)
    ensures
        b == quote_code(n as int),
{
    n == 0x22 || n == 0x27 || n == 0x60 || n == 0x2018 || n == 0x2019 || n == 0x201C || n == 0x201D
        || in_range(n, 0x300C, 0x300F)
}

fn is_cjk_punct_code(n: u32) -> (b: bool)
    ensures
        b == cjk_punct_code(n as int),
{
    in_range(n, 0x3001, 0x3004) || in_range(n, 0x3008, 0x300B) || in_range(n, 0x3010, 0x303F) || n
        == 0x30FB || in_range(n, 0xFF01, 0xFF0F) || in_range(n, 0xFF1A, 0xFF20) || in_range(
        n,
        0xFF3B,
        0xFF40,
    ) || in_range(n, 0xFF5B, 0xFF65)
}

/// Classifies a character.
pub fn classify(c: char) -> (class: CharClass)
    ensures
        class == class_of(c),
{
    let n: u32 = c as u32;
    if is_cjk_code(n) {
        CharClass::Cjk
    } else if in_range(n, 0x41, 0x5A) || in_range(n, 0x61, 0x7A) {
        CharClass::Letter
    } else if in_range(n, 0x30, 0x39) || in_range(n, 0xFF10, 0xFF19) {
        CharClass::Digit
    } else if n == 0x20 || in_range(n, 0x09, 0x0D) || n == 0x3000 {
        CharClass::Space
    } else if is_quote_code(n) {
        CharClass::Quote
    } else if is_cjk_punct_code(n) {
        CharClass::CjkPunct
    } else if in_range(n, 0x21, 0x7E) {
        CharClass::AsciiPunct
    } else {
        CharClass::Other
    }
}

} // verus!
