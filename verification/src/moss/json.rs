//! JSON and byte-text conversions used when turning program output into evidence.
use vstd::prelude::*;
use crate::text::hex_char;

verus! {

/// What `serde_json` makes of `text`: the compact serialization of the value it parses to,
/// or `None` when `text` is not one JSON value.
pub uninterp spec fn json_compact(text: Seq<char>) -> Option<Seq<char>>;

/// How `serde_json` writes one character inside a string literal: the quote and the backslash
/// behind a backslash; backspace, tab, line feed, form feed and carriage return as `\b`, `\t`,
/// `\n`, `\f`, `\r`; the other characters below U+0020 as `\u00` and two lower-case hex
/// digits; every other character as itself.
pub open spec fn json_escape_char(c: char) -> Seq<char> {
    if c == '"' {
        seq!['\\', '"']
    } else if c == '\\' {
        seq!['\\', '\\']
    } else if c == '\u{8}' {
        seq!['\\', 'b']
    } else if c == '\t' {
        seq!['\\', 't']
    } else if c == '\n' {
        seq!['\\', 'n']
    } else if c == '\u{c}' {
        seq!['\\', 'f']
    } else if c == '\r' {
        seq!['\\', 'r']
    } else if (c as nat) < 0x20 {
        seq!['\\', 'u', '0', '0', hex_char((c as nat) / 16), hex_char((c as nat) % 16)]
    } else {
        seq![c]
    }
}

/// The characters of `text`, each written as in a JSON string literal.
pub open spec fn json_escaped(text: Seq<char>) -> Seq<char>
    decreases text.len(),
{
    if text.len() == 0 {
        Seq::empty()
    } else {
        json_escaped(text.drop_last()) + json_escape_char(text.last())
    }
}

/// The JSON string literal for `text`, as `serde_json` serializes a string value: the escaped
/// characters between double quotes.
pub open spec fn json_quoted(text: Seq<char>) -> Seq<char> {
    seq!['"'] + json_escaped(text) + seq!['"']
}

/// The text `String::from_utf8_lossy` makes of `bytes`.
pub uninterp spec fn lossy_utf8(bytes: Seq<u8>) -> Seq<char>;

/// Calls `serde_json::from_str::<serde_json::Value>` on `text` and, when it parses, serializes
/// the value compactly with `Value::to_string`. The result is named by `json_compact`.
#[verifier::external_body]
pub(crate) fn compact_json(text: &str) -> (r: Option<String>)
    ensures
        match r {
            Some(t) => json_compact(text@) == Some(t@),
            None => json_compact(text@) is None,
        },
{
    serde_json::from_str::<serde_json::Value>(text).ok().map(|v| v.to_string())
}

/// Calls `Value::to_string` on `serde_json::Value::String(text)`: the compact formatter writes
/// a double quote, then each character of `text` with the escapes of serde_json's `ESCAPE`
/// table (as `json_escape_char` states them), then a double quote.
#[verifier::external_body]
pub(crate) fn quote_json(text: &str) -> (r: String)
    ensures
        r@ == json_quoted(text@),
{
    serde_json::Value::String(text.to_string()).to_string()
}

/// Calls `String::from_utf8_lossy` on `bytes`. The result is named by `lossy_utf8`.
#[verifier::external_body]
pub(crate) fn lossy_text(bytes: &Vec<u8>) -> (r: String)
    ensures
        r@ == lossy_utf8(bytes@),
{
    String::from_utf8_lossy(bytes.as_slice()).into_owned()
}

} // verus!
