//! Canonical documents: JSON text and its digest.
use vstd::prelude::*;

use crate::text;

verus! {

/// The hexadecimal BLAKE3 digest of a text's UTF-8 bytes.
pub uninterp spec fn blake3_hex(s: Seq<char>) -> Seq<char>;

/// Wraps `blake3::hash` and `Hash::to_hex`: the digest depends on the text
/// alone, `blake3_hex` names it, and its spelling has two digits for each of
/// its thirty-two bytes.
#[verifier::external_body]
pub(crate) fn digest(s: &str) -> (r: String)
    ensures
        r@ == blake3_hex(s@),
        r@.len() == 64,
{
    blake3::hash(s.as_bytes()).to_hex().to_string()
}

/// A lowercase hexadecimal digit.
pub open spec fn hex_digit(d: int) -> char {
    if d == 10 {
        'a'
    } else if d == 11 {
        'b'
    } else if d == 12 {
        'c'
    } else if d == 13 {
        'd'
    } else if d == 14 {
        'e'
    } else if d == 15 {
        'f'
    } else {
        text::digit(d as nat)
    }
}

/// One character inside a JSON string.
pub open spec fn json_char(c: char) -> Seq<char> {
    let u = c as u32;
    if c == '"' {
        seq!['\\', '"']
    } else if c == '\\' {
        seq!['\\', '\\']
    } else if u == 0x08 {
        seq!['\\', 'b']
    } else if u == 0x09 {
        seq!['\\', 't']
    } else if u == 0x0a {
        seq!['\\', 'n']
    } else if u == 0x0c {
        seq!['\\', 'f']
    } else if u == 0x0d {
        seq!['\\', 'r']
    } else if u < 0x20 {
        seq!['\\', 'u', '0', '0', hex_digit(u as int / 16), hex_digit(u as int % 16)]
    } else {
        seq![c]
    }
}

/// The characters inside a JSON string.
pub open spec fn json_chars(s: Seq<char>) -> Seq<char>
    decreases s.len(),
{
    if s.len() == 0 {
        Seq::empty()
    } else {
        json_chars(s.drop_last()) + json_char(s.last())
    }
}

/// A text as a JSON string.
pub open spec fn json_string(s: Seq<char>) -> Seq<char> {
    seq!['"'] + json_chars(s) + seq!['"']
}

/// Wraps `serde_json::to_string` on a string slice, which always succeeds: a
/// quote, every character with quotes, backslashes and control characters
/// escaped, and a quote.
#[verifier::external_body]
pub(crate) fn json_text(s: &str) -> (r: String)
    ensures
        r@ == json_string(s@),
{
    serde_json::to_string(s).unwrap_or_default()
}

/// A word that needs no escaping, as a JSON string.
pub open spec fn json_word(s: Seq<char>) -> Seq<char> {
    seq!['"'] + s + seq!['"']
}

/// A word that needs no escaping, as a JSON string.
pub fn word_text(s: &str) -> (r: String)
    ensures
        r@ == json_word(s@),
{
    let mut r = String::new();
    r.push('"');
    r.append(s);
    r.push('"');
    assert(r@ =~= json_word(s@));
    r
}

/// A JSON array.
pub open spec fn json_list(parts: Seq<Seq<char>>) -> Seq<char> {
    "["@ + text::joined(parts, ","@) + "]"@
}

/// A JSON array.
pub fn list_text(parts: &[String]) -> (r: String)
    ensures
        r@ == json_list(text::texts(parts@)),
{
    text::cat3("[", text::join(parts, ",").as_str(), "]")
}

/// A JSON boolean, or any `true`/`false` spelling.
pub open spec fn bool_word(b: bool) -> Seq<char> {
    if b {
        "true"@
    } else {
        "false"@
    }
}

/// `true` or `false`.
pub fn bool_text(b: bool) -> (r: &'static str)
    ensures
        r@ == bool_word(b),
{
    if b {
        "true"
    } else {
        "false"
    }
}

/// An optional number: its digits, or `null`.
pub open spec fn json_opt_number(n: Option<nat>) -> Seq<char> {
    match n {
        Some(v) => text::dec(v),
        None => "null"@,
    }
}

/// An optional number: its digits, or `null`.
pub fn opt_number_text(n: Option<u64>) -> (r: String)
    ensures
        r@ == json_opt_number(
            match n {
                Some(v) => Some(v as nat),
                None => None,
            },
        ),
{
    match n {
        Some(v) => text::u64_text(v),
        None => "null".to_owned(),
    }
}

/// The debug spelling of a text, as `format!("{:?}", ..)` writes it.
pub uninterp spec fn debug_string(s: Seq<char>) -> Seq<char>;

/// Wraps the `Debug` form of a string slice: quoted and escaped, a function of
/// the text alone, which `debug_string` names.
#[verifier::external_body]
pub(crate) fn debug_text(s: &str) -> (r: String)
    ensures
        r@ == debug_string(s@),
{
    format!("{:?}", s)
}

/// The debug spelling of a list whose entries are spelled `parts`.
pub open spec fn debug_list(parts: Seq<Seq<char>>) -> Seq<char> {
    "["@ + text::joined(parts, ", "@) + "]"@
}

/// The debug spelling of a list whose entries are spelled `parts`.
pub fn debug_list_text(parts: &[String]) -> (r: String)
    ensures
        r@ == debug_list(text::texts(parts@)),
{
    text::cat3("[", text::join(parts, ", ").as_str(), "]")
}

/// The debug spelling of an optional value spelled `inner`.
pub open spec fn debug_option(inner: Option<Seq<char>>) -> Seq<char> {
    match inner {
        Some(s) => "Some("@ + s + ")"@,
        None => "None"@,
    }
}

/// The debug spelling of an optional value spelled `inner`.
pub fn debug_option_text(inner: Option<&str>) -> (r: String)
    ensures
        r@ == debug_option(
            match inner {
                Some(s) => Some(s@),
                None => None,
            },
        ),
{
    match inner {
        Some(s) => text::cat3("Some(", s, ")"),
        None => "None".to_owned(),
    }
}

// ------------------------------------------------------------------- laws --

/// A list is its entries with a comma between two, in brackets.
pub proof fn law_how_a_list_is_written(parts: Seq<Seq<char>>, part: Seq<char>)
    ensures
        json_list(Seq::empty()) == "[]"@,
        json_list(seq![part]) == "["@ + part + "]"@,
        parts.len() > 0 ==> json_list(parts.push(part)) == "["@ + (text::joined(parts, ","@) + ","@
            + part) + "]"@,
        parts.len() > 0 ==> debug_list(parts.push(part)) == "["@ + (text::joined(parts, ", "@)
            + ", "@ + part) + "]"@,
{
    reveal_strlit("[");
    reveal_strlit("]");
    reveal_strlit("[]");
    text::law_what_is_joined(parts, part, ","@);
    text::law_what_is_joined(parts, part, ", "@);
    assert(json_list(Seq::empty()) =~= "[]"@);
}

/// A word is written between quotes, a truth as `true` or `false`, a number as
/// its digits, and what is absent as `null`.
pub proof fn law_how_values_are_written(s: Seq<char>, n: nat)
    ensures
        json_word(s).len() == s.len() + 2,
        json_word(s)[0] == '"' && json_word(s).last() == '"',
        json_word(s).subrange(1, s.len() as int + 1) == s,
        bool_word(true) == "true"@,
        bool_word(false) == "false"@,
        json_opt_number(Some(n)) == text::dec(n),
        json_opt_number(None) == "null"@,
        debug_option(Some(s)) == "Some("@ + s + ")"@,
        debug_option(None) == "None"@,
{
    assert(json_word(s).subrange(1, s.len() as int + 1) =~= s);
}

/// The sixteen digits, in order.
pub proof fn law_the_hexadecimal_digits(d: int)
    ensures
        0 <= d <= 9 ==> hex_digit(d) as u32 == '0' as u32 + d,
        10 <= d <= 15 ==> hex_digit(d) as u32 == 'a' as u32 + (d - 10),
{
}

} // verus!
