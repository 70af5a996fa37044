//! Timestamps as the logging tool writes them.
//!
//! The tool writes seven digits of fractional seconds, as in
//! `2022-01-01T12:34:56.1234567+09:00`. The last of the seven is dropped
//! before the text is parsed, so the seventh byte from the end goes.

use vstd::prelude::*;
use vstd::string::StringSliceAdditionalSpecFns;
use vstd::utf8::{
    decode_utf8,
    encode_utf8,
    encode_utf8_decode_utf8,
    encode_utf8_valid_utf8,
    is_ascii_chars,
    is_ascii_chars_encode_utf8,
    is_char_boundary,
    is_char_boundary_iff_not_is_continuation_byte,
    is_continuation_byte,
};

verus! {

/// The instant that `text` spells in the form `%Y-%m-%dT%H:%M:%S%.f%:z`, in
/// milliseconds since the Unix epoch, as `chrono` reads it; `None` where
/// `chrono` does not accept the text.
pub uninterp spec fn timestamp_millis_of(text: Seq<char>) -> Option<i64>;

/// Calls `chrono::DateTime::parse_from_str` with the format
/// `%Y-%m-%dT%H:%M:%S%.f%:z`, and `timestamp_millis` on what it returns.
///
/// Claimed, not proved: the outcome is a function of the characters of
/// `text` alone. Nothing is claimed about which texts parse or to what.
#[verifier::external_body]
pub(crate) fn parse_timestamp_millis(text: &str) -> (r: Option<i64>)
    ensures
        r == timestamp_millis_of(text@),
{
    match chrono::DateTime::parse_from_str(text, "%Y-%m-%dT%H:%M:%S%.f%:z") {
        Ok(instant) => Some(instant.timestamp_millis()),
        Err(_) => None,
    }
}

/// The text that is left of UTF-8 bytes when the seventh byte from the end
/// is dropped. There is none when there are fewer than seven bytes, or when
/// that byte is not a character of its own.
pub open spec fn without_seventh_from_end(bytes: Seq<u8>) -> Option<Seq<char>> {
    let n = bytes.len() as int;
    if n >= 7 && is_char_boundary(bytes, n - 7) && is_char_boundary(bytes, n - 6) {
        Some(decode_utf8(bytes.subrange(0, n - 7)) + decode_utf8(bytes.subrange(n - 6, n)))
    } else {
        None
    }
}

/// Reads a timestamp of the logging tool as milliseconds since the Unix
/// epoch.
///
/// `None` when the seventh byte from the end cannot be dropped, or when
/// what is left does not parse.
pub fn date_from_cs_string(time_str: &str) -> (r: Option<i64>)
    ensures
        r == match without_seventh_from_end(time_str.spec_bytes()) {
            Some(text) => timestamp_millis_of(text),
            None => None,
        },
{
    let n = time_str.as_bytes().len();
    if n < 7 || !time_str.is_char_boundary(n - 7) || !time_str.is_char_boundary(n - 6) {
        return None;
    }
    let (head, _) = time_str.split_at(n - 7);
    let (_, tail) = time_str.split_at(n - 6);
    proof {
        encode_utf8_decode_utf8(head@);
        encode_utf8_decode_utf8(tail@);
    }
    let mut text = String::from_str(head);
    text.append(tail);
    parse_timestamp_millis(text.as_str())
}

/// The UTF-8 bytes of a part of an ASCII text are the bytes of the text at
/// the same places, and decode to that part.
proof fn lemma_ascii_part(text: Seq<char>, from: int, to: int)
    requires
        is_ascii_chars(text),
        0 <= from <= to <= text.len(),
    ensures
        encode_utf8(text).len() == text.len(),
        decode_utf8(encode_utf8(text).subrange(from, to)) == text.subrange(from, to),
{
    let part = text.subrange(from, to);
    is_ascii_chars_encode_utf8(text);
    is_ascii_chars_encode_utf8(part);
    assert(encode_utf8(part) =~= encode_utf8(text).subrange(from, to));
    encode_utf8_decode_utf8(part);
}

/// On ASCII text of at least seven characters, dropping the seventh byte
/// from the end drops the seventh character from the end, and nothing else.
pub proof fn lemma_without_seventh_of_ascii(text: Seq<char>)
    requires
        is_ascii_chars(text),
        text.len() >= 7,
    ensures
        without_seventh_from_end(encode_utf8(text)) == Some(
            text.subrange(0, text.len() - 7) + text.subrange(text.len() - 6, text.len() as int),
        ),
{
    let bytes = encode_utf8(text);
    let n = text.len() as int;
    is_ascii_chars_encode_utf8(text);
    encode_utf8_valid_utf8(text);
    assert forall|k: int| 0 <= k < n implies is_char_boundary(bytes, k) by {
        let b = bytes[k];
        assert(!is_continuation_byte(b)) by (bit_vector)
            requires
                b < 0x80,
        ;
        is_char_boundary_iff_not_is_continuation_byte(bytes, k);
    }
    lemma_ascii_part(text, 0, n - 7);
    lemma_ascii_part(text, n - 6, n);
}

} // verus!
