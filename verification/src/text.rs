//! Small character and string helpers shared by the formatter and the
//! parser: character classes, ASCII case folding and single-character
//! appends.
use vstd::prelude::*;

verus! {

/// True of the ten ASCII digit characters.
pub open spec fn is_digit_char(c: char) -> bool {
    48 <= c as u32 <= 57
}

/// The numeric value of an ASCII digit character, 0 for anything else.
pub open spec fn char_digit(c: char) -> nat {
    if is_digit_char(c) {
        (c as u32 - 48) as nat
    } else {
        0
    }
}

/// True of the ASCII whitespace characters: space, tab, newline, form feed
/// and carriage return.
pub open spec fn is_space_char(c: char) -> bool {
    c == ' ' || c == '\t' || c == '\n' || c == '\u{c}' || c == '\r'
}

/// ASCII case folding of one character: maps 'A'..'Z' to 'a'..'z' and
/// leaves every other character alone.
pub open spec fn spec_lower_char(c: char) -> char {
    if 65 <= c as u32 <= 90 {
        (c as u32 + 32) as char
    } else {
        c
    }
}

/// Exec mirror of [`is_digit_char`].
pub fn digit_char(c: char) -> (r: bool)
    ensures
        r == is_digit_char(c),
{
    let code: u32 = c as u32;
    48 <= code && code <= 57
}

/// Exec mirror of [`is_space_char`].
pub fn space_char(c: char) -> (r: bool)
    ensures
        r == is_space_char(c),
{
    c == ' ' || c == '\t' || c == '\n' || c == '\u{c}' || c == '\r'
}

/// Exec mirror of [`char_digit`].
pub fn char_digit_val(c: char) -> (d: u64)
    ensures
        d == char_digit(c),
{
    let code: u32 = c as u32;
    if 48 <= code && code <= 57 {
        (code - 48) as u64
    } else {
        0
    }
}

/// Exec mirror of [`spec_lower_char`].
pub fn lower_char(c: char) -> (r: char)
    ensures
        r == spec_lower_char(c),
{
    match c {
        'A' => 'a',
        'B' => 'b',
        'C' => 'c',
        'D' => 'd',
        'E' => 'e',
        'F' => 'f',
        'G' => 'g',
        'H' => 'h',
        'I' => 'i',
        'J' => 'j',
        'K' => 'k',
        'L' => 'l',
        'M' => 'm',
        'N' => 'n',
        'O' => 'o',
        'P' => 'p',
        'Q' => 'q',
        'R' => 'r',
        'S' => 's',
        'T' => 't',
        'U' => 'u',
        'V' => 'v',
        'W' => 'w',
        'X' => 'x',
        'Y' => 'y',
        'Z' => 'z',
        _ => c,
    }
}

/// Relies on `String::push` of std: it appends exactly the one given
/// character to the end of the string.
#[verifier::external_body]
pub fn push_char(s: &mut String, c: char)
    ensures
        final(s)@ == old(s)@.push(c),
{
    s.push(c);
}

} // verus!
