//! Action effects and status effects: the packed sub-records of a line.

use vstd::prelude::*;
use crate::error::DecodeError;
use crate::number::{
    byte_lane,
    f32_from_hex_bits,
    hex_word,
    high_half,
    is_hex_word,
    low_half,
    split_bytes,
    split_halves,
    u16_pair_from_hex,
    u32_from_hex,
    F32Bits,
};

verus! {

/// One sub-effect of an ability use: seven values packed into two words.
#[derive(Clone, Copy, Debug, PartialEq, Eq, Structural)]
pub struct ActionEffect {
    pub param0: u8,
    pub param1: u8,
    pub severity: u8,
    pub effect_category: u8,
    pub value: u16,
    pub flags: u8,
    pub multiplier: u8,
}

/// One active status effect: four values spread over three words.
#[derive(Clone, Copy, Debug, PartialEq, Eq, Structural)]
pub struct StatusEffect {
    pub param0: u16,
    pub param1: u16,
    pub magnitude: F32Bits,
    pub duration: u32,
}

/// The action effect packed into the words `a` and `b`.
///
/// `a` gives, from its most significant byte down, `param0`, `param1`,
/// `severity` and `effect_category`. `b` gives `value` in its upper half,
/// then `flags`, then `multiplier` in its lowest byte.
pub open spec fn action_effect_of(a: u32, b: u32) -> ActionEffect {
    ActionEffect {
        param0: byte_lane(a, 0),
        param1: byte_lane(a, 1),
        severity: byte_lane(a, 2),
        effect_category: byte_lane(a, 3),
        value: high_half(b),
        flags: byte_lane(b, 2),
        multiplier: byte_lane(b, 3),
    }
}

/// The status effect spread over the words `a`, `b` and `c`.
///
/// `a` gives `param0` in its upper half and `param1` in its lower; `b` is the
/// bit pattern of `magnitude`; `c` is `duration`.
pub open spec fn status_effect_of(a: u32, b: u32, c: u32) -> StatusEffect {
    StatusEffect {
        param0: high_half(a),
        param1: low_half(a),
        magnitude: F32Bits { bits: b },
        duration: c,
    }
}

/// Unpacks an action effect from two words.
pub fn unpack_action_effect(a: u32, b: u32) -> (r: ActionEffect)
    ensures
        r == action_effect_of(a, b),
{
    let (param0, param1, severity, effect_category) = split_bytes(a);
    let (value, _) = split_halves(b);
    let (_, _, flags, multiplier) = split_bytes(b);
    ActionEffect { param0, param1, severity, effect_category, value, flags, multiplier }
}

/// Decodes an action effect from its two fields.
///
/// Both fields have to spell a 32-bit word; the error names the first that
/// does not, 0 or 1.
pub fn decode_action_effect(field_a: &str, field_b: &str) -> (r: Result<ActionEffect, DecodeError>)
    ensures
        match r {
            Ok(effect) => {
                &&& is_hex_word(field_a@)
                &&& is_hex_word(field_b@)
                &&& effect == action_effect_of(hex_word(field_a@), hex_word(field_b@))
            },
            Err(e) => if !is_hex_word(field_a@) {
                e == (DecodeError::MalformedNumber { field: 0 })
            } else {
                !is_hex_word(field_b@) && e == (DecodeError::MalformedNumber { field: 1 })
            },
        },
{
    let a = match u32_from_hex(field_a) {
        Ok(a) => a,
        Err(_) => {
            return Err(DecodeError::MalformedNumber { field: 0 });
        },
    };
    let b = match u32_from_hex(field_b) {
        Ok(b) => b,
        Err(_) => {
            return Err(DecodeError::MalformedNumber { field: 1 });
        },
    };
    Ok(unpack_action_effect(a, b))
}

/// Decodes a status effect from its three fields.
///
/// All three fields have to spell a 32-bit word; the error names the first
/// that does not, 0, 1 or 2.
pub fn decode_status_effect(field_a: &str, field_b: &str, field_c: &str) -> (r: Result<
    StatusEffect,
    DecodeError,
>)
    ensures
        match r {
            Ok(effect) => {
                &&& is_hex_word(field_a@)
                &&& is_hex_word(field_b@)
                &&& is_hex_word(field_c@)
                &&& effect == status_effect_of(
                    hex_word(field_a@),
                    hex_word(field_b@),
                    hex_word(field_c@),
                )
            },
            Err(e) => if !is_hex_word(field_a@) {
                e == (DecodeError::MalformedNumber { field: 0 })
            } else if !is_hex_word(field_b@) {
                e == (DecodeError::MalformedNumber { field: 1 })
            } else {
                !is_hex_word(field_c@) && e == (DecodeError::MalformedNumber { field: 2 })
            },
        },
{
    let (param0, param1) = match u16_pair_from_hex(field_a) {
        Ok(p) => p,
        Err(_) => {
            return Err(DecodeError::MalformedNumber { field: 0 });
        },
    };
    let magnitude = match f32_from_hex_bits(field_b) {
        Ok(m) => m,
        Err(_) => {
            return Err(DecodeError::MalformedNumber { field: 1 });
        },
    };
    let duration = match u32_from_hex(field_c) {
        Ok(d) => d,
        Err(_) => {
            return Err(DecodeError::MalformedNumber { field: 2 });
        },
    };
    Ok(StatusEffect { param0, param1, magnitude, duration })
}

} // verus!
