//! Strings and their bytes.

use vstd::prelude::*;
use vstd::utf8::{decode_utf8, encode_utf8, valid_utf8};

verus! {

/// Calls `String::from_utf8` of std. Trusted: a string comes back exactly
/// when the bytes are valid UTF-8, and it holds the characters they
/// encode.
#[verifier::external_body]
pub(crate) fn string_from_utf8(bytes: Vec<u8>) -> (out: Option<String>)
    ensures
        out is Some <==> valid_utf8(bytes@),
        out matches Some(s) ==> s@ == decode_utf8(bytes@),
{
    String::from_utf8(bytes).ok()
}

/// Calls `String::push` of std. Trusted: the character is added at the
/// end.
#[verifier::external_body]
pub(crate) fn string_push(s: &mut String, c: char)
    ensures
        final(s)@ == old(s)@.push(c),
{
    s.push(c);
}

/// Makes the letters `A` to `Z` lowercase and leaves every other
/// character as it is.
pub(crate) fn char_to_ascii_lowercase(c: char) -> (out: char)
    ensures
        out == ascii_lower(c),
{
    if 'A' <= c && c <= 'Z' {
        let code: u8 = c as u8;
        (code + 32) as char
    } else {
        c
    }
}

/// Whether `c` is numeric, as Unicode has it.
pub uninterp spec fn unicode_numeric(c: char) -> bool;

/// Whether `c` is an uppercase letter, as Unicode has it.
pub uninterp spec fn unicode_uppercase(c: char) -> bool;

/// Whether `c` is a lowercase letter, as Unicode has it.
pub uninterp spec fn unicode_lowercase(c: char) -> bool;

/// Whether `c` is a letter or numeric, as Unicode has it.
pub uninterp spec fn unicode_alphanumeric(c: char) -> bool;

/// Calls `char::is_numeric` of std. Trusted: the result is what Unicode
/// says of the character.
#[verifier::external_body]
pub(crate) fn char_is_numeric(c: char) -> (out: bool)
    ensures
        out == unicode_numeric(c),
{
    c.is_numeric()
}

/// Calls `char::is_uppercase` of std. Trusted: the result is what Unicode
/// says of the character.
#[verifier::external_body]
pub(crate) fn char_is_uppercase(c: char) -> (out: bool)
    ensures
        out == unicode_uppercase(c),
{
    c.is_uppercase()
}

/// Calls `char::is_lowercase` of std. Trusted: the result is what Unicode
/// says of the character.
#[verifier::external_body]
pub(crate) fn char_is_lowercase(c: char) -> (out: bool)
    ensures
        out == unicode_lowercase(c),
{
    c.is_lowercase()
}

/// Calls `char::is_alphanumeric` of std. Trusted: the result is what
/// Unicode says of the character.
#[verifier::external_body]
pub(crate) fn char_is_alphanumeric(c: char) -> (out: bool)
    ensures
        out == unicode_alphanumeric(c),
{
    c.is_alphanumeric()
}

/// `c` with the letters `A` to `Z` made lowercase.
pub open spec fn ascii_lower(c: char) -> char {
    if 'A' <= c && c <= 'Z' {
        ((c as u32) + 32) as char
    } else {
        c
    }
}

/// `c` as it matters when a word is compared with lowercase ASCII words:
/// ASCII letters made lowercase, and the Kelvin sign, the one other
/// character whose lowercase form is an ASCII letter, made `k`.
pub open spec fn folded(c: char) -> char {
    if c == '\u{212A}' {
        'k'
    } else {
        ascii_lower(c)
    }
}

/// Folds one character.
pub fn fold_char(c: char) -> (out: char)
    ensures
        out == folded(c),
{
    if c == '\u{212A}' {
        'k'
    } else {
        char_to_ascii_lowercase(c)
    }
}

/// What decoding `bytes` as UTF-8 gives: the characters, or nothing where
/// the bytes are not valid.
pub open spec fn decoded(bytes: Seq<u8>) -> Option<Seq<char>> {
    if valid_utf8(bytes) {
        Some(decode_utf8(bytes))
    } else {
        None
    }
}

/// Decoding the bytes of a string gives the string back.
pub proof fn lemma_decode_encoded(chars: Seq<char>)
    ensures
        decoded(encode_utf8(chars)) == Some(chars),
{
    vstd::utf8::encode_utf8_valid_utf8(chars);
    vstd::utf8::encode_utf8_decode_utf8(chars);
}

/// Encoding what valid bytes decode to gives the bytes back.
pub proof fn lemma_encode_decoded(bytes: Seq<u8>)
    ensures
        decoded(bytes) matches Some(chars) ==> encode_utf8(chars) == bytes,
{
    if valid_utf8(bytes) {
        vstd::utf8::decode_utf8_encode_utf8(bytes);
    }
}

/// Decodes `bytes` as UTF-8.
pub fn decode(bytes: Vec<u8>) -> (out: Option<String>)
    ensures
        decoded(bytes@) == (match out {
            Some(s) => Some(s@),
            None => None,
        }),
{
    string_from_utf8(bytes)
}

} // verus!
