//! Bytes as texts and texts as bytes.
use vstd::prelude::*;
use vstd::utf8::{decode_utf8, valid_utf8};
use base64::Engine;
use sha2::Digest;
use crate::text::{is_ascii_letter, is_digit};

verus! {

/// What the URL-safe base64 engine without padding makes of bytes.
pub uninterp spec fn base64url(bytes: Seq<u8>) -> Seq<char>;

/// What the URL-safe base64 engine without padding reads from a text.
pub uninterp spec fn base64url_decoded(text: Seq<char>) -> Option<Seq<u8>>;

/// The SHA-256 digest of bytes in lower-case hexadecimal digits.
pub uninterp spec fn sha256_hex(bytes: Seq<u8>) -> Seq<char>;

/// A character inside a JSON string. A quotation mark, a backslash and the
/// control characters below the space are escaped, some of them by a letter.
pub open spec fn json_char(c: char) -> Seq<char> {
    if c == '"' || c == '\\' {
        seq!['\\', c]
    } else if c == '\u{8}' {
        seq!['\\', 'b']
    } else if c == '\t' {
        seq!['\\', 't']
    } else if c == '\n' {
        seq!['\\', 'n']
    } else if c == '\u{c}' {
        seq!['\\', 'f']
    } else if c == '\r' {
        seq!['\\', 'r']
    } else if ' ' > c {
        "\\u00"@ + seq![
            "0123456789abcdef"@[(c as u32 / 16) as int],
            "0123456789abcdef"@[(c as u32 % 16) as int],
        ]
    } else {
        seq![c]
    }
}

/// A text as a JSON string, in quotes and with escapes.
pub open spec fn json_string(text: Seq<char>) -> Seq<char> {
    seq!['"'] + text.map_values(|c: char| json_char(c)).flatten() + seq!['"']
}

/// A character of the URL-safe base64 alphabet.
pub open spec fn is_base64url_char(c: char) -> bool {
    is_ascii_letter(c) || is_digit(c) || c == '-' || c == '_'
}

pub open spec fn is_lower_hex(c: char) -> bool {
    is_digit(c) || 'a' <= c <= 'f'
}

/// `base64::engine::general_purpose::URL_SAFE_NO_PAD.encode`: four characters
/// of the URL-safe alphabet for every three bytes, one more than the bytes left
/// over for the rest, and no padding. The same engine reads the text back as the
/// bytes that it was made of. The size of the text is computed without overflow,
/// since a slice never has more than `isize::MAX` bytes.
#[verifier::external_body]
pub(crate) fn encode_base64url(bytes: &[u8]) -> (text: String)
    ensures
        text@ == base64url(bytes@),
        text@.len() == (bytes@.len() * 4 + 2) / 3,
        base64url_decoded(text@) == Some(bytes@),
        forall|i: int| 0 <= i < text@.len() ==> is_base64url_char(#[trigger] text@[i]),
{
    base64::engine::general_purpose::URL_SAFE_NO_PAD.encode(bytes)
}

/// `base64::engine::general_purpose::URL_SAFE_NO_PAD.decode`: the bytes that a
/// text encodes, where it encodes any.
#[verifier::external_body]
pub(crate) fn decode_base64url(text: &str) -> (bytes: Option<Vec<u8>>)
    ensures
        match bytes {
            Some(b) => base64url_decoded(text@) == Some(b@),
            None => base64url_decoded(text@) is None,
        },
{
    base64::engine::general_purpose::URL_SAFE_NO_PAD.decode(text).ok()
}

/// `sha2::Sha256::digest`, its 32 bytes printed as 64 lower-case hexadecimal
/// digits.
#[verifier::external_body]
pub(crate) fn digest_hex(bytes: &[u8]) -> (text: String)
    ensures
        text@ == sha256_hex(bytes@),
        text@.len() == 64,
        forall|i: int| 0 <= i < text@.len() ==> is_lower_hex(#[trigger] text@[i]),
{
    format!("{:x}", sha2::Sha256::digest(bytes))
}

/// `serde_json::Value::from` a text, printed without spaces: the text in
/// quotation marks, with the escapes of `json_char` and no others.
#[verifier::external_body]
pub(crate) fn json_literal(text: &str) -> (literal: String)
    ensures
        literal@ == json_string(text@),
{
    serde_json::Value::from(text).to_string()
}

/// `String::from_utf8`: the text that the bytes spell in UTF-8, where they
/// spell one.
#[verifier::external_body]
pub(crate) fn from_utf8(bytes: Vec<u8>) -> (text: Option<String>)
    ensures
        match text {
            Some(t) => valid_utf8(bytes@) && t@ == decode_utf8(bytes@),
            None => !valid_utf8(bytes@),
        },
{
    String::from_utf8(bytes).ok()
}

/// The text that bytes spell in UTF-8.
pub open spec fn utf8_text(bytes: Seq<u8>) -> Option<Seq<char>> {
    if valid_utf8(bytes) {
        Some(decode_utf8(bytes))
    } else {
        None
    }
}

} // verus!
