//! The integrity suffix of a line.
//!
//! A line ends in the hexadecimal digest of everything before it, followed
//! by the decimal text of the line's index. The index ties a line to its
//! place in the log: a line moved elsewhere no longer validates.

use vstd::prelude::*;
use vstd::slice::slice_subrange;
use vstd::string::StringSliceAdditionalSpecFns;
use crate::digest::{compute_md5, compute_sha256, md5_digest, sha256_digest};
use crate::error::DecodeError;
use crate::number::{hex_digit, hex_digit_value, is_hex_digit};

verus! {

/// Which digest closes a line.
#[derive(Clone, Copy, Debug, PartialEq, Eq, Structural)]
pub enum ChecksumAlgorithm {
    /// MD5, all 16 bytes: 32 hexadecimal characters.
    Primary,
    /// SHA-256, cut to its first 8 bytes: 16 hexadecimal characters.
    Fallback,
}

impl ChecksumAlgorithm {
    /// Number of digest bytes that the suffix holds.
    pub open spec fn digest_len(self) -> nat {
        match self {
            ChecksumAlgorithm::Primary => 16,
            ChecksumAlgorithm::Fallback => 8,
        }
    }

    /// Number of hexadecimal characters of the suffix: two for each byte.
    pub open spec fn suffix_len(self) -> nat {
        2 * self.digest_len()
    }

    /// Number of digest bytes that the suffix holds.
    pub fn digest_bytes(self) -> (r: usize)
        ensures
            r == self.digest_len(),
    {
        match self {
            ChecksumAlgorithm::Primary => 16,
            ChecksumAlgorithm::Fallback => 8,
        }
    }

    /// Number of hexadecimal characters of the suffix.
    pub fn suffix_chars(self) -> (r: usize)
        ensures
            r == self.suffix_len(),
    {
        2 * self.digest_bytes()
    }
}

/// The decimal digits of `n`, as ASCII bytes, without leading zeros.
pub open spec fn decimal_digits(n: nat) -> Seq<u8>
    decreases n,
{
    if n < 10 {
        seq![(0x30 + n) as u8]
    } else {
        decimal_digits(n / 10).push((0x30 + n % 10) as u8)
    }
}

/// The decimal text of `i`, as ASCII bytes: a minus sign if `i` is
/// negative, then the digits of its magnitude.
pub open spec fn decimal_text(i: int) -> Seq<u8> {
    if i < 0 {
        seq![0x2du8] + decimal_digits((-i) as nat)
    } else {
        decimal_digits(i as nat)
    }
}

/// Whether `s` is hexadecimal text for whole bytes: an even number of
/// ASCII hexadecimal digits.
pub open spec fn is_hex_text(s: Seq<u8>) -> bool {
    &&& s.len() % 2 == 0
    &&& forall|i: int| 0 <= i < s.len() ==> is_hex_digit(#[trigger] s[i] as char)
}

/// The byte that two hexadecimal digits spell, the first being the upper
/// four bits.
pub open spec fn hex_pair_value(hi: u8, lo: u8) -> u8 {
    (16 * hex_digit_value(hi as char) + hex_digit_value(lo as char)) as u8
}

/// The bytes that hexadecimal text spells, two characters for each.
pub open spec fn hex_decoded(s: Seq<u8>) -> Seq<u8> {
    Seq::new(s.len() / 2, |k: int| hex_pair_value(s[2 * k], s[2 * k + 1]))
}

/// Appends the decimal digits of `n` to `out`.
fn push_decimal_digits(out: &mut Vec<u8>, n: u64)
    ensures
        final(out)@ == old(out)@ + decimal_digits(n as nat),
    decreases n,
{
    if n >= 10 {
        push_decimal_digits(out, n / 10);
    }
    out.push(0x30 + (n % 10) as u8);
}

/// Appends the decimal text of `index` to `out`.
pub fn push_decimal_text(out: &mut Vec<u8>, index: i32)
    ensures
        final(out)@ == old(out)@ + decimal_text(index as int),
{
    if index < 0 {
        out.push(0x2d);
        let magnitude: u64 = (-(index as i64)) as u64;
        push_decimal_digits(out, magnitude);
    } else {
        push_decimal_digits(out, index as u64);
    }
}

/// Decodes hexadecimal text into the bytes it spells.
///
/// Fails when the text has an odd number of characters or holds anything
/// but hexadecimal digits.
pub fn decode_hex(hex: &[u8]) -> (r: Result<Vec<u8>, DecodeError>)
    ensures
        match r {
            Ok(bytes) => is_hex_text(hex@) && bytes@ == hex_decoded(hex@),
            Err(e) => !is_hex_text(hex@) && e == DecodeError::MalformedChecksum,
        },
{
    let n = hex.len();
    if n % 2 != 0 {
        return Err(DecodeError::MalformedChecksum);
    }
    let mut out: Vec<u8> = Vec::new();
    let mut k: usize = 0;
    while k < n / 2
        invariant
            n == hex@.len(),
            n % 2 == 0,
            0 <= k <= n / 2,
            out@.len() == k,
            forall|i: int| 0 <= i < 2 * k ==> is_hex_digit(#[trigger] hex@[i] as char),
            forall|j: int| 0 <= j < k ==> out@[j] == hex_pair_value(hex@[2 * j], hex@[2 * j + 1]),
        decreases n / 2 - k,
    {
        let hi = match hex_digit(hex[2 * k]) {
            Some(d) => d,
            None => {
                return Err(DecodeError::MalformedChecksum);
            },
        };
        let lo = match hex_digit(hex[2 * k + 1]) {
            Some(d) => d,
            None => {
                return Err(DecodeError::MalformedChecksum);
            },
        };
        out.push(16 * hi + lo);
        k += 1;
    }
    Ok(out)
}

/// The bytes of a line before its integrity suffix.
pub open spec fn checksum_body(line: Seq<u8>, algorithm: ChecksumAlgorithm) -> Seq<u8> {
    line.take(line.len() - algorithm.suffix_len())
}

/// The integrity suffix of a line: its last characters, as many as the
/// algorithm asks for.
pub open spec fn checksum_suffix(line: Seq<u8>, algorithm: ChecksumAlgorithm) -> Seq<u8> {
    line.skip(line.len() - algorithm.suffix_len())
}

/// Whether a line ends in a suffix that can be read: the line is no shorter
/// than the suffix, and the suffix is hexadecimal.
pub open spec fn has_checksum(line: Seq<u8>, algorithm: ChecksumAlgorithm) -> bool {
    &&& line.len() >= algorithm.suffix_len()
    &&& is_hex_text(checksum_suffix(line, algorithm))
}

/// The digest that closes a line with the given body and index: the digest
/// of the body followed, with nothing in between, by the decimal text of the
/// index, cut to the length that the algorithm keeps.
pub open spec fn line_digest(body: Seq<u8>, index: int, algorithm: ChecksumAlgorithm) -> Seq<u8> {
    let message = body + decimal_text(index);
    let digest = match algorithm {
        ChecksumAlgorithm::Primary => md5_digest(message),
        ChecksumAlgorithm::Fallback => sha256_digest(message),
    };
    digest.take(algorithm.digest_len() as int)
}

/// Whether the suffix of a line spells the digest of its body and index.
pub open spec fn checksum_holds(line: Seq<u8>, index: int, algorithm: ChecksumAlgorithm) -> bool {
    line_digest(checksum_body(line, algorithm), index, algorithm) == hex_decoded(
        checksum_suffix(line, algorithm),
    )
}

/// Compares a digest, cut to the length that the algorithm keeps, with the
/// bytes that a suffix spelled, byte for byte.
pub fn digest_matches(digest: &[u8], algorithm: ChecksumAlgorithm, expected: &[u8]) -> (r: bool)
    ensures
        r == (digest@.len() >= algorithm.digest_len() && digest@.take(
            algorithm.digest_len() as int,
        ) == expected@),
{
    let n = algorithm.digest_bytes();
    if digest.len() < n || expected.len() != n {
        return false;
    }
    let mut i: usize = 0;
    while i < n
        invariant
            0 <= i <= n,
            n == algorithm.digest_len(),
            n <= digest@.len(),
            n == expected@.len(),
            forall|j: int| 0 <= j < i ==> digest@[j] == expected@[j],
        decreases n - i,
    {
        if digest[i] != expected[i] {
            return false;
        }
        i += 1;
    }
    assert(digest@.take(n as int) =~= expected@);
    true
}

/// Validates the integrity suffix of a line, given as bytes.
///
/// `Ok(true)` when the suffix spells the digest of the body and `index`,
/// `Ok(false)` when it spells anything else. An error only when there is no
/// suffix to read: the line is shorter than the suffix, or its last
/// characters are not all hexadecimal digits.
pub fn validate_checksum_bytes(line: &[u8], index: i32, algorithm: ChecksumAlgorithm) -> (r: Result<
    bool,
    DecodeError,
>)
    ensures
        match r {
            Ok(valid) => has_checksum(line@, algorithm) && valid == checksum_holds(
                line@,
                index as int,
                algorithm,
            ),
            Err(e) => !has_checksum(line@, algorithm) && e == DecodeError::MalformedChecksum,
        },
{
    let n = algorithm.suffix_chars();
    let len = line.len();
    if len < n {
        return Err(DecodeError::MalformedChecksum);
    }
    let body = slice_subrange(line, 0, len - n);
    let suffix = slice_subrange(line, len - n, len);
    let expected = match decode_hex(suffix) {
        Ok(bytes) => bytes,
        Err(e) => {
            return Err(e);
        },
    };
    let mut message: Vec<u8> = Vec::new();
    let mut i: usize = 0;
    while i < body.len()
        invariant
            0 <= i <= body@.len(),
            message@ == body@.take(i as int),
        decreases body@.len() - i,
    {
        message.push(body[i]);
        i += 1;
    }
    assert(message@ == body@);
    push_decimal_text(&mut message, index);
    let valid = match algorithm {
        ChecksumAlgorithm::Primary => {
            let digest = compute_md5(message.as_slice());
            digest_matches(digest.as_slice(), algorithm, expected.as_slice())
        },
        ChecksumAlgorithm::Fallback => {
            let digest = compute_sha256(message.as_slice());
            digest_matches(digest.as_slice(), algorithm, expected.as_slice())
        },
    };
    Ok(valid)
}

/// Validates the integrity suffix of a line.
///
/// The line is read as its UTF-8 bytes; see [`validate_checksum_bytes`].
pub fn validate_checksum(line: &str, index: i32, algorithm: ChecksumAlgorithm) -> (r: Result<
    bool,
    DecodeError,
>)
    ensures
        match r {
            Ok(valid) => has_checksum(line.spec_bytes(), algorithm) && valid == checksum_holds(
                line.spec_bytes(),
                index as int,
                algorithm,
            ),
            Err(e) => !has_checksum(line.spec_bytes(), algorithm) && e
                == DecodeError::MalformedChecksum,
        },
{
    validate_checksum_bytes(line.as_bytes(), index, algorithm)
}

/// Two hexadecimal texts of one length that differ in the value of a digit
/// spell different bytes.
pub proof fn lemma_hex_decoded_differs(s: Seq<u8>, t: Seq<u8>, i: int)
    requires
        is_hex_text(s),
        is_hex_text(t),
        s.len() == t.len(),
        0 <= i < s.len(),
        hex_digit_value(s[i] as char) != hex_digit_value(t[i] as char),
    ensures
        hex_decoded(s) != hex_decoded(t),
{
    let k = i / 2;
    assert(hex_decoded(s)[k] != hex_decoded(t)[k]);
}

/// A line that validates stops validating when one digit of its suffix is
/// replaced by a hexadecimal digit of another value: the outcome is a
/// mismatch, not an error.
pub proof fn lemma_altered_suffix_fails(
    line: Seq<u8>,
    altered: Seq<u8>,
    index: int,
    algorithm: ChecksumAlgorithm,
    i: int,
)
    requires
        has_checksum(line, algorithm),
        checksum_holds(line, index, algorithm),
        altered.len() == line.len(),
        line.len() - algorithm.suffix_len() <= i < line.len(),
        forall|j: int| 0 <= j < line.len() && j != i ==> altered[j] == line[j],
        is_hex_digit(altered[i] as char),
        hex_digit_value(altered[i] as char) != hex_digit_value(line[i] as char),
    ensures
        has_checksum(altered, algorithm),
        !checksum_holds(altered, index, algorithm),
{
    let start = line.len() - algorithm.suffix_len();
    let s = checksum_suffix(line, algorithm);
    let t = checksum_suffix(altered, algorithm);
    assert forall|j: int| 0 <= j < t.len() implies is_hex_digit(#[trigger] t[j] as char) by {
        if start + j != i {
            assert(t[j] == s[j]);
        }
    }
    assert(checksum_body(altered, algorithm) =~= checksum_body(line, algorithm));
    lemma_hex_decoded_differs(s, t, i - start);
}

} // verus!
