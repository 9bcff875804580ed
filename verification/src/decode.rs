//! The front end for names that arrive percent-encoded, as in a URL path.

use crate::class::{pattern_compiles, WordClass, WORD_PATTERN};
use crate::normal::{normal_form, normalize_with};
use percent_encoding::percent_decode_str;
use std::str::Utf8Error;
use vstd::prelude::*;
use vstd::utf8::{decode_utf8, encode_utf8, valid_utf8};

verus! {

/// `std::str::Utf8Error`, carried from the decoder to the caller unread.
#[verifier::external_type_specification]
#[verifier::external_body]
pub struct ExUtf8Error(Utf8Error);

/// The value of a hexadecimal digit, in either case.
pub open spec fn hex_value(b: u8) -> Option<u8> {
    if 0x30 <= b <= 0x39 {
        Some((b - 0x30) as u8)
    } else if 0x41 <= b <= 0x46 {
        Some((b - 0x41 + 10) as u8)
    } else if 0x61 <= b <= 0x66 {
        Some((b - 0x61 + 10) as u8)
    } else {
        None
    }
}

/// The bytes at the head of `bytes` are a percent sign and two hexadecimal digits.
pub open spec fn is_escape(bytes: Seq<u8>) -> bool {
    bytes.len() >= 3 && bytes[0] == 0x25 && hex_value(bytes[1]) is Some && hex_value(
        bytes[2],
    ) is Some
}

/// `bytes` with every escape replaced by the byte it stands for. A percent
/// sign that two hexadecimal digits do not follow stays as it is.
pub open spec fn unescaped(bytes: Seq<u8>) -> Seq<u8>
    decreases bytes.len(),
{
    if bytes.len() == 0 {
        Seq::empty()
    } else if is_escape(bytes) {
        seq![(hex_value(bytes[1])->0 * 16 + hex_value(bytes[2])->0) as u8] + unescaped(
            bytes.skip(3),
        )
    } else {
        seq![bytes[0]] + unescaped(bytes.skip(1))
    }
}

/// The text that the escapes of `s` spell, if the bytes they stand for are UTF-8.
pub open spec fn percent_decoded(s: Seq<char>) -> Option<Seq<char>> {
    let bytes = unescaped(encode_utf8(s));
    if valid_utf8(bytes) {
        Some(decode_utf8(bytes))
    } else {
        None
    }
}

/// The decoded text where the escapes of `s` decode, else `s` itself.
pub open spec fn decoded_or_same(s: Seq<char>) -> Seq<char> {
    match percent_decoded(s) {
        Some(t) => t,
        None => s,
    }
}

/// `percent_decode_str` replaces each percent sign that two hexadecimal
/// digits follow by the byte they name, and `decode_utf8` reads the
/// result as UTF-8: the text it spells, or an error if it is not UTF-8.
#[verifier::external_body]
fn percent_decode(text: &str) -> (r: Result<String, Utf8Error>)
    ensures
        match r {
            Ok(decoded) => percent_decoded(text@) == Some(decoded@),
            Err(_) => percent_decoded(text@) is None,
        },
{
    match percent_decode_str(text).decode_utf8() {
        Ok(decoded) => Ok(decoded.into_owned()),
        Err(error) => Err(error),
    }
}

/// Replaces `text` by what its percent escapes spell. Where they do not
/// spell UTF-8 the text stays as it is, and the result says so: it is `false`.
pub fn decode_escapes(text: &mut String) -> (decoded: bool)
    ensures
        decoded == percent_decoded(old(text)@) is Some,
        final(text)@ == decoded_or_same(old(text)@),
{
    match percent_decode(text.as_str()) {
        Ok(plain) => {
            *text = plain;
            true
        },
        Err(_) => false,
    }
}

/// Decodes the percent escapes of `text` and rewrites what they spell into
/// its normal form, with a word class at hand. Where the escapes do not
/// spell UTF-8 the text is normalized as it stands, and the result is `false`.
pub fn normalize_decode_with(class: &WordClass, text: &mut String) -> (decoded: bool)
    requires
        class.wf(),
    ensures
        decoded == percent_decoded(old(text)@) is Some,
        final(text)@ == normal_form(decoded_or_same(old(text)@)),
{
    let decoded = decode_escapes(text);
    normalize_with(class, text);
    decoded
}

/// Decodes the percent escapes of `text` and rewrites what they spell into
/// its normal form. Where the escapes do not spell UTF-8 the text is
/// normalized as it stands, and the result says so: it is `false`. Past the
/// decoding the text is left as it is only if the word class cannot be built.
pub fn normalize_decode(text: &mut String) -> (decoded: bool)
    ensures
        decoded == percent_decoded(old(text)@) is Some,
        final(text)@ == (if pattern_compiles(WORD_PATTERN@) {
            normal_form(decoded_or_same(old(text)@))
        } else {
            decoded_or_same(old(text)@)
        }),
{
    match WordClass::new() {
        Some(class) => normalize_decode_with(&class, text),
        None => decode_escapes(text),
    }
}

} // verus!
