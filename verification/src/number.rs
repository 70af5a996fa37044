//! Hexadecimal fields and the fixed-width numbers they spell.
//!
//! A field spells a number in base 16, most significant digit first, in
//! upper or lower case, with neither sign nor prefix. Splitting a 32-bit word
//! into narrower lanes is always big-endian: the most significant lane comes
//! first.

use vstd::prelude::*;
use crate::error::DecodeError;

verus! {

/// Whether `c` is one of `0-9`, `a-f`, `A-F`.
pub open spec fn is_hex_digit(c: char) -> bool {
    ('0' <= c && c <= '9') || ('a' <= c && c <= 'f') || ('A' <= c && c <= 'F')
}

/// The value of a hexadecimal digit; 0 for any other character.
pub open spec fn hex_digit_value(c: char) -> nat {
    if '0' <= c && c <= '9' {
        (c as int - '0' as int) as nat
    } else if 'a' <= c && c <= 'f' {
        (c as int - 'a' as int + 10) as nat
    } else if 'A' <= c && c <= 'F' {
        (c as int - 'A' as int + 10) as nat
    } else {
        0
    }
}

/// Whether every character of `s` is a hexadecimal digit.
pub open spec fn all_hex_digits(s: Seq<char>) -> bool {
    forall|i: int| 0 <= i < s.len() ==> is_hex_digit(#[trigger] s[i])
}

/// The number that the digits of `s` spell in base 16, most significant
/// digit first.
pub open spec fn hex_value(s: Seq<char>) -> nat
    decreases s.len(),
{
    if s.len() == 0 {
        0
    } else {
        16 * hex_value(s.drop_last()) + hex_digit_value(s.last())
    }
}

/// Whether `s` spells a number no greater than `max`: at least one
/// character, hexadecimal digits only, and a value within the bound.
pub open spec fn is_hex_number(s: Seq<char>, max: nat) -> bool {
    s.len() > 0 && all_hex_digits(s) && hex_value(s) <= max
}

/// A longer text never spells less than one of its prefixes.
pub proof fn lemma_hex_value_prefix(s: Seq<char>, k: int)
    requires
        0 <= k <= s.len(),
    ensures
        hex_value(s.take(k)) <= hex_value(s),
    decreases s.len(),
{
    if k == s.len() {
        assert(s.take(k) =~= s);
    } else {
        assert(s.drop_last().take(k) =~= s.take(k));
        lemma_hex_value_prefix(s.drop_last(), k);
    }
}

/// Reads one ASCII byte as a hexadecimal digit.
pub fn hex_digit(b: u8) -> (r: Option<u8>)
    ensures
        match r {
            Some(d) => is_hex_digit(b as char) && d == hex_digit_value(b as char),
            None => !is_hex_digit(b as char),
        },
{
    if 0x30 <= b && b <= 0x39 {
        // '0' to '9'
        Some(b - 0x30)
    } else if 0x61 <= b && b <= 0x66 {
        // 'a' to 'f'
        Some(b - 0x61 + 10)
    } else if 0x41 <= b && b <= 0x46 {
        // 'A' to 'F'
        Some(b - 0x41 + 10)
    } else {
        None
    }
}

/// Parses `field` as a hexadecimal number no greater than `max`.
pub fn parse_hex(field: &str, max: u32) -> (r: Option<u32>)
    ensures
        match r {
            Some(v) => is_hex_number(field@, max as nat) && v == hex_value(field@),
            None => !is_hex_number(field@, max as nat),
        },
{
    if !field.is_ascii() {
        return None;
    }
    proof {
        vstd::string::is_ascii_spec_bytes(field);
    }
    let bytes = field.as_bytes();
    let n = bytes.len();
    if n == 0 {
        return None;
    }
    let mut acc: u64 = 0;
    let mut i: usize = 0;
    while i < n
        invariant
            0 <= i <= n,
            n == field@.len(),
            n == bytes@.len(),
            forall|j: int| 0 <= j < n ==> bytes@[j] == (#[trigger] field@[j]) as u8,
            vstd::utf8::is_ascii_chars(field@),
            all_hex_digits(field@.take(i as int)),
            acc == hex_value(field@.take(i as int)),
            acc <= max,
        decreases n - i,
    {
        let b = bytes[i];
        assert(b as char == field@[i as int]);
        assert(field@.take(i + 1).drop_last() =~= field@.take(i as int));
        match hex_digit(b) {
            None => {
                return None;
            },
            Some(d) => {
                let next: u64 = acc * 16 + d as u64;
                if next > max as u64 {
                    proof {
                        lemma_hex_value_prefix(field@, i + 1);
                    }
                    return None;
                }
                acc = next;
            },
        }
        i += 1;
    }
    assert(field@.take(n as int) =~= field@);
    Some(acc as u32)
}

/// An IEEE-754 single-precision number, held as its 32 bits.
///
/// The hexadecimal word of a log field is the bit pattern itself: nothing
/// is converted numerically, and two values are equal when their bits are.
#[derive(Clone, Copy, Debug, PartialEq, Eq, Structural)]
pub struct F32Bits {
    pub bits: u32,
}

/// The upper 16 bits of a word.
pub open spec fn high_half(w: u32) -> u16 {
    (w / 0x1_0000) as u16
}

/// The lower 16 bits of a word.
pub open spec fn low_half(w: u32) -> u16 {
    (w % 0x1_0000) as u16
}

/// One of the four bytes of a word; lane 0 is the most significant.
pub open spec fn byte_lane(w: u32, lane: int) -> u8 {
    if lane == 0 {
        (w / 0x100_0000) as u8
    } else if lane == 1 {
        (w / 0x1_0000 % 0x100) as u8
    } else if lane == 2 {
        (w / 0x100 % 0x100) as u8
    } else {
        (w % 0x100) as u8
    }
}

/// Whether `s` spells a 32-bit word.
pub open spec fn is_hex_word(s: Seq<char>) -> bool {
    is_hex_number(s, 0xffff_ffff)
}

/// The 32-bit word that `s` spells.
pub open spec fn hex_word(s: Seq<char>) -> u32 {
    hex_value(s) as u32
}

/// Splits a word into its upper and lower halves.
pub fn split_halves(w: u32) -> (r: (u16, u16))
    ensures
        r.0 == high_half(w),
        r.1 == low_half(w),
{
    let hi: u32 = w >> 16;
    let lo: u32 = w & 0xffff;
    assert(hi == w / 0x1_0000 && hi <= 0xffff) by (bit_vector)
        requires
            hi == w >> 16,
    ;
    assert(lo == w % 0x1_0000 && lo <= 0xffff) by (bit_vector)
        requires
            lo == w & 0xffff,
    ;
    (hi as u16, lo as u16)
}

/// Splits a word into its four bytes, most significant first.
pub fn split_bytes(w: u32) -> (r: (u8, u8, u8, u8))
    ensures
        r.0 == byte_lane(w, 0),
        r.1 == byte_lane(w, 1),
        r.2 == byte_lane(w, 2),
        r.3 == byte_lane(w, 3),
{
    let b0: u32 = w >> 24;
    let b1: u32 = (w >> 16) & 0xff;
    let b2: u32 = (w >> 8) & 0xff;
    let b3: u32 = w & 0xff;
    assert(b0 == w / 0x100_0000 && b0 <= 0xff) by (bit_vector)
        requires
            b0 == w >> 24,
    ;
    assert(b1 == w / 0x1_0000 % 0x100 && b1 <= 0xff) by (bit_vector)
        requires
            b1 == (w >> 16) & 0xff,
    ;
    assert(b2 == w / 0x100 % 0x100 && b2 <= 0xff) by (bit_vector)
        requires
            b2 == (w >> 8) & 0xff,
    ;
    assert(b3 == w % 0x100 && b3 <= 0xff) by (bit_vector)
        requires
            b3 == w & 0xff,
    ;
    (b0 as u8, b1 as u8, b2 as u8, b3 as u8)
}

/// Parses a field as a 16-bit number.
///
/// Fails when the field is empty, holds anything but hexadecimal digits, or
/// spells more than 16 bits can hold.
pub fn u16_from_hex(field: &str) -> (r: Result<u16, DecodeError>)
    ensures
        match r {
            Ok(v) => is_hex_number(field@, 0xffff) && v == hex_value(field@),
            Err(e) => !is_hex_number(field@, 0xffff) && e == (DecodeError::MalformedNumber {
                field: 0,
            }),
        },
{
    match parse_hex(field, 0xffff) {
        Some(v) => Ok(v as u16),
        None => Err(DecodeError::MalformedNumber { field: 0 }),
    }
}

/// Parses a field as a 32-bit number.
///
/// Fails when the field is empty, holds anything but hexadecimal digits, or
/// spells more than 32 bits can hold.
pub fn u32_from_hex(field: &str) -> (r: Result<u32, DecodeError>)
    ensures
        match r {
            Ok(v) => is_hex_word(field@) && v == hex_word(field@),
            Err(e) => !is_hex_word(field@) && e == (DecodeError::MalformedNumber { field: 0 }),
        },
{
    match parse_hex(field, 0xffff_ffff) {
        Some(v) => Ok(v),
        None => Err(DecodeError::MalformedNumber { field: 0 }),
    }
}

/// Reads a field as the bit pattern of a single-precision number.
///
/// The 32-bit word that the field spells is the pattern, unchanged.
pub fn f32_from_hex_bits(field: &str) -> (r: Result<F32Bits, DecodeError>)
    ensures
        match r {
            Ok(v) => is_hex_word(field@) && v.bits == hex_word(field@),
            Err(e) => !is_hex_word(field@) && e == (DecodeError::MalformedNumber { field: 0 }),
        },
{
    match parse_hex(field, 0xffff_ffff) {
        Some(v) => Ok(F32Bits { bits: v }),
        None => Err(DecodeError::MalformedNumber { field: 0 }),
    }
}

/// Parses a field as a 32-bit word and returns its upper and lower halves,
/// in that order.
pub fn u16_pair_from_hex(field: &str) -> (r: Result<(u16, u16), DecodeError>)
    ensures
        match r {
            Ok(p) => is_hex_word(field@) && p.0 == high_half(hex_word(field@)) && p.1 == low_half(
                hex_word(field@),
            ),
            Err(e) => !is_hex_word(field@) && e == (DecodeError::MalformedNumber { field: 0 }),
        },
{
    match parse_hex(field, 0xffff_ffff) {
        Some(v) => Ok(split_halves(v)),
        None => Err(DecodeError::MalformedNumber { field: 0 }),
    }
}

/// Parses a field as a 32-bit word and returns its four bytes, most
/// significant first.
pub fn u8_quad_from_hex(field: &str) -> (r: Result<(u8, u8, u8, u8), DecodeError>)
    ensures
        match r {
            Ok(q) => {
                &&& is_hex_word(field@)
                &&& q.0 == byte_lane(hex_word(field@), 0)
                &&& q.1 == byte_lane(hex_word(field@), 1)
                &&& q.2 == byte_lane(hex_word(field@), 2)
                &&& q.3 == byte_lane(hex_word(field@), 3)
            },
            Err(e) => !is_hex_word(field@) && e == (DecodeError::MalformedNumber { field: 0 }),
        },
{
    match parse_hex(field, 0xffff_ffff) {
        Some(v) => Ok(split_bytes(v)),
        None => Err(DecodeError::MalformedNumber { field: 0 }),
    }
}

/// The upper-case hexadecimal digit of value `d`, for `d` below 16.
pub open spec fn hex_digit_char(d: nat) -> char {
    if d < 10 {
        ((0x30 + d) as u8) as char
    } else {
        ((0x41 + d - 10) as u8) as char
    }
}

/// The last `width` upper-case hexadecimal digits of `v`, padded with
/// zeros on the left.
pub open spec fn hex_text(v: nat, width: nat) -> Seq<char>
    decreases width,
{
    if width == 0 {
        Seq::empty()
    } else {
        hex_text(v / 16, (width - 1) as nat).push(hex_digit_char(v % 16))
    }
}

/// A lower-case hexadecimal letter in upper case; any other character as it
/// is.
pub open spec fn upper_hex_digit(c: char) -> char {
    if 'a' <= c && c <= 'f' {
        ((c as u8 - 0x20) as u8) as char
    } else {
        c
    }
}

/// A text with its lower-case hexadecimal letters in upper case.
pub open spec fn upper_hex_text(s: Seq<char>) -> Seq<char> {
    Seq::new(s.len(), |i: int| upper_hex_digit(s[i]))
}

/// 16 to the power of `n`.
pub open spec fn sixteen_to(n: nat) -> nat
    decreases n,
{
    if n == 0 {
        1
    } else {
        16 * sixteen_to((n - 1) as nat)
    }
}

/// A text of `n` characters spells a number below 16 to the power of `n`.
pub proof fn lemma_hex_value_bound(s: Seq<char>)
    ensures
        hex_value(s) < sixteen_to(s.len()),
    decreases s.len(),
{
    if s.len() > 0 {
        lemma_hex_value_bound(s.drop_last());
    }
}

/// Writing out the number that hexadecimal digits spell, with as many
/// digits, gives the digits back in upper case.
pub proof fn lemma_hex_text_of_value(s: Seq<char>)
    requires
        all_hex_digits(s),
    ensures
        hex_text(hex_value(s), s.len()) == upper_hex_text(s),
    decreases s.len(),
{
    if s.len() > 0 {
        let t = s.drop_last();
        assert(all_hex_digits(t));
        lemma_hex_text_of_value(t);
    }
}

/// The `width` digits written for a number below 16 to the power of `width`
/// are hexadecimal digits and spell that number.
pub proof fn lemma_value_of_hex_text(v: nat, width: nat)
    requires
        v < sixteen_to(width),
    ensures
        hex_text(v, width).len() == width,
        all_hex_digits(hex_text(v, width)),
        hex_value(hex_text(v, width)) == v,
    decreases width,
{
    if width > 0 {
        let rest = hex_text(v / 16, (width - 1) as nat);
        let c = hex_digit_char(v % 16);
        lemma_value_of_hex_text(v / 16, (width - 1) as nat);
        assert(rest.push(c).drop_last() =~= rest);
    }
}

/// Round trip from the text: a field of eight hexadecimal digits spells a
/// 32-bit word, and that word written with eight digits is the field again,
/// but for the case of its letters.
pub proof fn lemma_u32_round_trip(s: Seq<char>)
    requires
        s.len() == 8,
        all_hex_digits(s),
    ensures
        is_hex_word(s),
        hex_text(hex_word(s) as nat, 8) == upper_hex_text(s),
{
    lemma_hex_value_bound(s);
    assert(sixteen_to(8) == 0x1_0000_0000) by {
        reveal_with_fuel(sixteen_to, 9);
    }
    lemma_hex_text_of_value(s);
}

/// Round trip from the number: the eight digits written for a 32-bit word
/// spell that word.
pub proof fn lemma_u32_round_trip_from_word(w: u32)
    ensures
        is_hex_word(hex_text(w as nat, 8)),
        hex_word(hex_text(w as nat, 8)) == w,
{
    assert(sixteen_to(8) == 0x1_0000_0000) by {
        reveal_with_fuel(sixteen_to, 9);
    }
    lemma_value_of_hex_text(w as nat, 8);
}

/// The upper-case hexadecimal digit of value `d`, as a text of one
/// character.
fn hex_digit_text(d: u32) -> (r: &'static str)
    requires
        d < 16,
    ensures
        r@ == seq![hex_digit_char(d as nat)],
{
    proof {
        reveal_strlit("0");
        reveal_strlit("1");
        reveal_strlit("2");
        reveal_strlit("3");
        reveal_strlit("4");
        reveal_strlit("5");
        reveal_strlit("6");
        reveal_strlit("7");
        reveal_strlit("8");
        reveal_strlit("9");
        reveal_strlit("A");
        reveal_strlit("B");
        reveal_strlit("C");
        reveal_strlit("D");
        reveal_strlit("E");
        reveal_strlit("F");
    }
    let r = if d == 0 {
        "0"
    } else if d == 1 {
        "1"
    } else if d == 2 {
        "2"
    } else if d == 3 {
        "3"
    } else if d == 4 {
        "4"
    } else if d == 5 {
        "5"
    } else if d == 6 {
        "6"
    } else if d == 7 {
        "7"
    } else if d == 8 {
        "8"
    } else if d == 9 {
        "9"
    } else if d == 10 {
        "A"
    } else if d == 11 {
        "B"
    } else if d == 12 {
        "C"
    } else if d == 13 {
        "D"
    } else if d == 14 {
        "E"
    } else {
        "F"
    };
    r
}

/// Writes a 32-bit word as eight upper-case hexadecimal digits, padded with
/// zeros: the text that [`u32_from_hex`] reads back as the same word.
pub fn u32_to_hex(w: u32) -> (r: String)
    ensures
        r@ == hex_text(w as nat, 8),
{
    let mut digits = [0u32;8];
    let mut rest = w;
    let mut k: usize = 8;
    while k > 0
        invariant
            0 <= k <= 8,
            forall|i: int| k <= i < 8 ==> digits@[i] < 16,
            hex_text(w as nat, 8) == hex_text(rest as nat, k as nat) + Seq::new(
                (8 - k) as nat,
                |i: int| hex_digit_char(digits@[k + i] as nat),
            ),
        decreases k,
    {
        let ghost before = digits@;
        k -= 1;
        digits[k] = rest % 16;
        assert(hex_text(rest as nat, (k + 1) as nat) == hex_text((rest / 16) as nat, k as nat).push(
            hex_digit_char((rest % 16) as nat),
        ));
        assert(hex_text((rest / 16) as nat, k as nat).push(hex_digit_char((rest % 16) as nat))
            + Seq::new((8 - (k + 1)) as nat, |i: int| hex_digit_char(before[k + 1 + i] as nat))
            =~= hex_text((rest / 16) as nat, k as nat) + Seq::new(
            (8 - k) as nat,
            |i: int| hex_digit_char(digits@[k + i] as nat),
        ));
        rest = rest / 16;
    }
    let mut out = String::new();
    let mut i: usize = 0;
    while i < 8
        invariant
            0 <= i <= 8,
            forall|j: int| 0 <= j < 8 ==> digits@[j] < 16,
            out@ == Seq::new(i as nat, |j: int| hex_digit_char(digits@[j] as nat)),
        decreases 8 - i,
    {
        out.append(hex_digit_text(digits[i]));
        i += 1;
    }
    out
}

} // verus!
