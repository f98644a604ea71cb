//! JSON string-literal encoding.
//!
//! The payload built by this library embeds the rendered message as a JSON
//! string literal. The spec functions here state that encoding character by
//! character: which characters are escaped, and how. The one executable item,
//! [`json_string_literal`], delegates the encoding itself to `serde_json` and
//! is trusted against that statement; [`lemma_unescape_escape`] proves that
//! the stated encoding is lossless, so the embedded text decodes back to the
//! original message.

use vstd::prelude::*;

verus! {

/// The lowercase hexadecimal digit for a value below sixteen.
pub open spec fn hex_digit(v: int) -> char {
    if v == 0 {
        '0'
    } else if v == 1 {
        '1'
    } else if v == 2 {
        '2'
    } else if v == 3 {
        '3'
    } else if v == 4 {
        '4'
    } else if v == 5 {
        '5'
    } else if v == 6 {
        '6'
    } else if v == 7 {
        '7'
    } else if v == 8 {
        '8'
    } else if v == 9 {
        '9'
    } else if v == 10 {
        'a'
    } else if v == 11 {
        'b'
    } else if v == 12 {
        'c'
    } else if v == 13 {
        'd'
    } else if v == 14 {
        'e'
    } else {
        'f'
    }
}

/// The value of a lowercase hexadecimal digit, or a negative value for any
/// other character.
pub open spec fn hex_val(c: char) -> int {
    if c == '0' {
        0
    } else if c == '1' {
        1
    } else if c == '2' {
        2
    } else if c == '3' {
        3
    } else if c == '4' {
        4
    } else if c == '5' {
        5
    } else if c == '6' {
        6
    } else if c == '7' {
        7
    } else if c == '8' {
        8
    } else if c == '9' {
        9
    } else if c == 'a' {
        10
    } else if c == 'b' {
        11
    } else if c == 'c' {
        12
    } else if c == 'd' {
        13
    } else if c == 'e' {
        14
    } else if c == 'f' {
        15
    } else {
        -1
    }
}

/// How a single character is written inside a JSON string literal: the double
/// quote, the backslash and five control characters have two-character named
/// escapes, every other control character a six-character `\u00XX` escape
/// with lowercase hexadecimal digits, and every remaining character stands
/// verbatim.
pub open spec fn escaped_char(c: char) -> Seq<char> {
    if c == '"' {
        seq!['\\', '"']
    } else if c == '\\' {
        seq!['\\', '\\']
    } else if c == '\u{8}' {
        seq!['\\', 'b']
    } else if c == '\t' {
        seq!['\\', 't']
    } else if c == '\n' {
        seq!['\\', 'n']
    } else if c == '\u{c}' {
        seq!['\\', 'f']
    } else if c == '\r' {
        seq!['\\', 'r']
    } else if (c as u32) < 0x20 {
        seq![
            '\\',
            'u',
            '0',
            '0',
            hex_digit(((c as u32) as int) / 16),
            hex_digit(((c as u32) as int) % 16),
        ]
    } else {
        seq![c]
    }
}

/// The body of a JSON string literal holding the given text: each character's
/// escape sequence, concatenated in order.
pub open spec fn escape_seq(s: Seq<char>) -> Seq<char>
    decreases s.len(),
{
    if s.len() == 0 {
        Seq::empty()
    } else {
        escaped_char(s[0]) + escape_seq(s.drop_first())
    }
}

/// A complete JSON string literal: the escaped text between double quotes.
pub open spec fn json_quoted(s: Seq<char>) -> Seq<char> {
    "\""@ + escape_seq(s) + "\""@
}

/// True of the seven characters that may follow a backslash in a
/// two-character named escape.
pub open spec fn is_named_escape(c: char) -> bool {
    c == '"' || c == '\\' || c == 'b' || c == 't' || c == 'n' || c == 'f' || c == 'r'
}

/// The character a two-character named escape stands for.
pub open spec fn named_unescape(c: char) -> char {
    if c == '"' {
        '"'
    } else if c == '\\' {
        '\\'
    } else if c == 'b' {
        '\u{8}'
    } else if c == 't' {
        '\t'
    } else if c == 'n' {
        '\n'
    } else if c == 'f' {
        '\u{c}'
    } else {
        '\r'
    }
}

/// The character with the given code point.
pub open spec fn char_of_code(v: int) -> char {
    (v as u32) as char
}

/// Decodes the body of a JSON string literal as [`escape_seq`] writes it:
/// a backslash introduces a named escape or a `\u00XX` escape of a control
/// character, and every other character stands for itself. Returns `None`
/// where no character sequence is encoded that way.
pub open spec fn unescape(s: Seq<char>) -> Option<Seq<char>>
    decreases s.len(),
{
    if s.len() == 0 {
        Some(Seq::empty())
    } else if s[0] != '\\' {
        match unescape(s.drop_first()) {
            Some(t) => Some(seq![s[0]] + t),
            None => None,
        }
    } else if s.len() >= 2 && is_named_escape(s[1]) {
        match unescape(s.skip(2)) {
            Some(t) => Some(seq![named_unescape(s[1])] + t),
            None => None,
        }
    } else if s.len() >= 6 && s[1] == 'u' && s[2] == '0' && s[3] == '0' && 0 <= hex_val(s[4]) < 2
        && 0 <= hex_val(s[5]) {
        match unescape(s.skip(6)) {
            Some(t) => Some(seq![char_of_code(hex_val(s[4]) * 16 + hex_val(s[5]))] + t),
            None => None,
        }
    } else {
        None
    }
}

/// Law: the escaping is lossless. Decoding the literal body written for any
/// text yields exactly that text, so the message embedded in a payload is
/// recovered unchanged by a JSON decoder.
pub proof fn lemma_unescape_escape(s: Seq<char>)
    ensures
        unescape(escape_seq(s)) == Some(s),
    decreases s.len(),
{
    if s.len() == 0 {
    } else {
        let c = s[0];
        let e = escaped_char(c);
        let rest = escape_seq(s.drop_first());
        lemma_unescape_escape(s.drop_first());
        assert(escape_seq(s) == e + rest);
        assert(seq![c] + s.drop_first() =~= s);
        if c == '"' || c == '\\' || c == '\u{8}' || c == '\t' || c == '\n' || c == '\u{c}' || c
            == '\r' {
            assert((e + rest)[0] == '\\');
            assert((e + rest)[1] == e[1]);
            assert((e + rest).skip(2) =~= rest);
            assert(named_unescape(e[1]) == c);
        } else if (c as u32) < 0x20 {
            let v = (c as u32) as int;
            assert((e + rest)[0] == '\\');
            assert((e + rest)[1] == 'u');
            assert((e + rest)[2] == '0');
            assert((e + rest)[3] == '0');
            assert((e + rest)[4] == hex_digit(v / 16));
            assert((e + rest)[5] == hex_digit(v % 16));
            assert((e + rest).skip(6) =~= rest);
            assert(hex_val(hex_digit(v / 16)) == v / 16);
            assert(hex_val(hex_digit(v % 16)) == v % 16);
            assert(v / 16 * 16 + v % 16 == v);
            vstd::utf8::char_u32_cast(c, c as u32);
            assert(char_of_code(v) == c);
        } else {
            assert((e + rest)[0] == c);
            assert((e + rest).drop_first() =~= rest);
        }
    }
}

/// Relies on `serde_json::to_string` applied to a `&str`: it writes the string
/// as a JSON string literal, that is, the text between double quotes with the
/// double quote, the backslash and the control characters escaped exactly as
/// [`escaped_char`] states (`serde_json`'s escape table) and every other
/// character copied verbatim. Serialising a string never fails.
#[verifier::external_body]
pub(crate) fn json_string_literal(s: &str) -> (r: String)
    ensures
        r@ == json_quoted(s@),
{
    serde_json::to_string(s).expect("serialising a string never fails")
}

} // verus!
