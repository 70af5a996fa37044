//! Whole records: the fields of one line, sliced by a fixed layout.
//!
//! A decoder is handed the fields of a single line, already split on the
//! delimiter, and reads them from left to right, each exactly once. A layout
//! that the fields cannot fill is reported before any field is parsed; after
//! that the first field that fails to parse is reported by its position.

use vstd::prelude::*;
use crate::actor::{actor_identity_of, decode_actor_identity, ActorIdentity, ActorIdentityView};
use crate::effect::{
    action_effect_of,
    decode_action_effect,
    decode_status_effect,
    status_effect_of,
    ActionEffect,
    StatusEffect,
};
use crate::error::DecodeError;
use crate::number::{f32_from_hex_bits, hex_word, is_hex_word, u32_from_hex, F32Bits};

verus! {

/// Number of resource values of an actor.
pub const RESOURCE_COUNT: usize = 6;

/// Number of position values of an actor.
pub const POSITION_COUNT: usize = 4;

/// Number of action effects of an ability record.
pub const ACTION_EFFECT_COUNT: usize = 8;

/// Position of the source actor's id in an ability record; its name follows.
pub const SOURCE_ACTOR_AT: usize = 0;

/// Position of the ability's id in an ability record; its name follows.
pub const ABILITY_AT: usize = 2;

/// Position of the target actor's id in an ability record; its name follows.
pub const TARGET_ACTOR_AT: usize = 4;

/// Position of the first action-effect field in an ability record.
pub const ACTION_EFFECTS_AT: usize = 6;

/// Position of the source actor's first resource in an ability record.
pub const SOURCE_RESOURCES_AT: usize = 22;

/// Position of the source actor's first position value in an ability record.
pub const SOURCE_POSITION_AT: usize = 28;

/// Position of the target actor's first resource in an ability record.
pub const TARGET_RESOURCES_AT: usize = 32;

/// Position of the target actor's first position value in an ability record.
pub const TARGET_POSITION_AT: usize = 38;

/// Position of the sequence id in an ability record.
pub const SEQUENCE_ID_AT: usize = 42;

/// Number of fields that an ability record reads.
pub const ABILITY_FIELD_COUNT: usize = 43;

/// Position of the actor's id in a status-list record; its name follows.
pub const STATUS_ACTOR_AT: usize = 0;

/// Position of the class label in a status-list record.
pub const CLASS_LABEL_AT: usize = 2;

/// Position of the actor's first resource in a status-list record.
pub const STATUS_RESOURCES_AT: usize = 3;

/// Position of the actor's first position value in a status-list record.
pub const STATUS_POSITION_AT: usize = 9;

/// Position of the first status-effect field in a status-list record: the
/// number of fields of its fixed part.
pub const STATUS_EFFECTS_AT: usize = 13;

/// One use of an ability by a source actor on a target actor.
#[derive(Clone, Debug, PartialEq, Eq)]
pub struct AbilityRecord {
    pub timestamp: i64,
    pub source_actor: ActorIdentity,
    pub source_resources: [u32; RESOURCE_COUNT],
    pub source_position: [F32Bits; POSITION_COUNT],
    pub target_actor: ActorIdentity,
    pub target_resources: [u32; RESOURCE_COUNT],
    pub target_position: [F32Bits; POSITION_COUNT],
    pub ability: ActorIdentity,
    pub action_effects: [ActionEffect; ACTION_EFFECT_COUNT],
    pub sequence_id: u32,
}

/// What an [`AbilityRecord`] holds, as sequences.
pub struct AbilityRecordView {
    pub timestamp: i64,
    pub source_actor: ActorIdentityView,
    pub source_resources: Seq<u32>,
    pub source_position: Seq<F32Bits>,
    pub target_actor: ActorIdentityView,
    pub target_resources: Seq<u32>,
    pub target_position: Seq<F32Bits>,
    pub ability: ActorIdentityView,
    pub action_effects: Seq<ActionEffect>,
    pub sequence_id: u32,
}

impl View for AbilityRecord {
    type V = AbilityRecordView;

    open spec fn view(&self) -> AbilityRecordView {
        AbilityRecordView {
            timestamp: self.timestamp,
            source_actor: self.source_actor@,
            source_resources: self.source_resources@,
            source_position: self.source_position@,
            target_actor: self.target_actor@,
            target_resources: self.target_resources@,
            target_position: self.target_position@,
            ability: self.ability@,
            action_effects: self.action_effects@,
            sequence_id: self.sequence_id,
        }
    }
}

/// The state of one actor and the status effects active on it.
#[derive(Clone, Debug, PartialEq, Eq)]
pub struct StatusListRecord {
    pub actor: ActorIdentity,
    pub class_label: String,
    pub resources: [u32; RESOURCE_COUNT],
    pub position: [F32Bits; POSITION_COUNT],
    pub status_effects: Vec<StatusEffect>,
}

/// What a [`StatusListRecord`] holds, as sequences.
pub struct StatusListRecordView {
    pub actor: ActorIdentityView,
    pub class_label: Seq<char>,
    pub resources: Seq<u32>,
    pub position: Seq<F32Bits>,
    pub status_effects: Seq<StatusEffect>,
}

impl View for StatusListRecord {
    type V = StatusListRecordView;

    open spec fn view(&self) -> StatusListRecordView {
        StatusListRecordView {
            actor: self.actor@,
            class_label: self.class_label@,
            resources: self.resources@,
            position: self.position@,
            status_effects: self.status_effects@,
        }
    }
}

/// The texts of a list of fields.
pub open spec fn field_texts(fields: Seq<&str>) -> Seq<Seq<char>> {
    Seq::new(fields.len(), |i: int| fields[i]@)
}

/// Whether every field at a position in `start..end` spells a 32-bit word.
pub open spec fn all_words_in(f: Seq<Seq<char>>, start: int, end: int) -> bool {
    forall|j: int| start <= j < end ==> is_hex_word(#[trigger] f[j])
}

/// Whether `i` is the first position in `start..end` whose field does not
/// spell a 32-bit word.
pub open spec fn first_malformed_in(f: Seq<Seq<char>>, start: int, end: int, i: int) -> bool {
    &&& start <= i < end
    &&& !is_hex_word(f[i])
    &&& all_words_in(f, start, i)
}

/// The identity whose id stands at position `at` and whose name follows it.
pub open spec fn identity_at(f: Seq<Seq<char>>, at: int) -> ActorIdentityView {
    actor_identity_of(f[at], f[at + 1])
}

/// The words that `count` fields spell, from position `start` on.
pub open spec fn words_at(f: Seq<Seq<char>>, start: int, count: nat) -> Seq<u32> {
    Seq::new(count, |k: int| hex_word(f[start + k]))
}

/// The bit patterns that `count` fields spell, from position `start` on.
pub open spec fn bit_patterns_at(f: Seq<Seq<char>>, start: int, count: nat) -> Seq<F32Bits> {
    Seq::new(count, |k: int| F32Bits { bits: hex_word(f[start + k]) })
}

/// The action effects that `count` pairs of fields spell, from position
/// `start` on.
pub open spec fn action_effects_at(f: Seq<Seq<char>>, start: int, count: nat) -> Seq<ActionEffect> {
    Seq::new(
        count,
        |k: int| action_effect_of(hex_word(f[start + 2 * k]), hex_word(f[start + 2 * k + 1])),
    )
}

/// The status effects that `count` triples of fields spell, from position
/// `start` on.
pub open spec fn status_effects_at(f: Seq<Seq<char>>, start: int, count: nat) -> Seq<StatusEffect> {
    Seq::new(
        count,
        |k: int|
            status_effect_of(
                hex_word(f[start + 3 * k]),
                hex_word(f[start + 3 * k + 1]),
                hex_word(f[start + 3 * k + 2]),
            ),
    )
}

/// Decodes the identity whose id stands at position `at` and whose name
/// follows it.
fn decode_identity_at(fields: &[&str], at: usize) -> (r: Result<ActorIdentity, DecodeError>)
    requires
        at + 2 <= fields.len(),
    ensures
        match r {
            Ok(a) => {
                &&& is_hex_word(field_texts(fields@)[at as int])
                &&& a@ == identity_at(field_texts(fields@), at as int)
            },
            Err(e) => {
                &&& !is_hex_word(field_texts(fields@)[at as int])
                &&& e == (DecodeError::MalformedNumber { field: at })
            },
        },
{
    match decode_actor_identity(fields[at], fields[at + 1]) {
        Ok(a) => Ok(a),
        Err(_) => Err(DecodeError::MalformedNumber { field: at }),
    }
}

/// Decodes the word at position `at`.
fn decode_word_at(fields: &[&str], at: usize) -> (r: Result<u32, DecodeError>)
    requires
        at < fields.len(),
    ensures
        match r {
            Ok(w) => {
                &&& is_hex_word(field_texts(fields@)[at as int])
                &&& w == hex_word(field_texts(fields@)[at as int])
            },
            Err(e) => {
                &&& !is_hex_word(field_texts(fields@)[at as int])
                &&& e == (DecodeError::MalformedNumber { field: at })
            },
        },
{
    match u32_from_hex(fields[at]) {
        Ok(w) => Ok(w),
        Err(_) => Err(DecodeError::MalformedNumber { field: at }),
    }
}

/// Decodes `N` consecutive fields, from position `start` on, as words.
fn decode_words<const N: usize>(fields: &[&str], start: usize) -> (r: Result<[u32; N], DecodeError>)
    requires
        start + N <= fields.len(),
    ensures
        match r {
            Ok(words) => {
                &&& all_words_in(field_texts(fields@), start as int, start + N)
                &&& words@ == words_at(field_texts(fields@), start as int, N as nat)
            },
            Err(e) => match e {
                DecodeError::MalformedNumber { field } => first_malformed_in(
                    field_texts(fields@),
                    start as int,
                    start + N,
                    field as int,
                ),
                _ => false,
            },
        },
{
    let mut out = [0u32;N];
    let mut k: usize = 0;
    while k < N
        invariant
            0 <= k <= N,
            start + N <= fields.len(),
            all_words_in(field_texts(fields@), start as int, start + k),
            forall|j: int|
                0 <= j < k ==> out@[j] == hex_word(#[trigger] field_texts(fields@)[start + j]),
        decreases N - k,
    {
        match u32_from_hex(fields[start + k]) {
            Ok(w) => {
                out[k] = w;
            },
            Err(_) => {
                return Err(DecodeError::MalformedNumber { field: start + k });
            },
        }
        k += 1;
    }
    Ok(out)
}

/// Decodes `N` consecutive fields, from position `start` on, as bit
/// patterns of single-precision numbers.
fn decode_bit_patterns<const N: usize>(fields: &[&str], start: usize) -> (r: Result<
    [F32Bits; N],
    DecodeError,
>)
    requires
        start + N <= fields.len(),
    ensures
        match r {
            Ok(patterns) => {
                &&& all_words_in(field_texts(fields@), start as int, start + N)
                &&& patterns@ == bit_patterns_at(field_texts(fields@), start as int, N as nat)
            },
            Err(e) => match e {
                DecodeError::MalformedNumber { field } => first_malformed_in(
                    field_texts(fields@),
                    start as int,
                    start + N,
                    field as int,
                ),
                _ => false,
            },
        },
{
    let mut out = [F32Bits { bits: 0 };N];
    let mut k: usize = 0;
    while k < N
        invariant
            0 <= k <= N,
            start + N <= fields.len(),
            all_words_in(field_texts(fields@), start as int, start + k),
            forall|j: int|
                0 <= j < k ==> out@[j].bits == hex_word(
                    #[trigger] field_texts(fields@)[start + j],
                ),
        decreases N - k,
    {
        match f32_from_hex_bits(fields[start + k]) {
            Ok(p) => {
                out[k] = p;
            },
            Err(_) => {
                return Err(DecodeError::MalformedNumber { field: start + k });
            },
        }
        k += 1;
    }
    Ok(out)
}

/// Decodes the action effects of an ability record from consecutive fields,
/// from position `start` on, pair by pair.
fn decode_action_effects(fields: &[&str], start: usize) -> (r: Result<
    [ActionEffect; ACTION_EFFECT_COUNT],
    DecodeError,
>)
    requires
        start + 2 * ACTION_EFFECT_COUNT <= fields.len(),
    ensures
        match r {
            Ok(effects) => {
                &&& all_words_in(
                    field_texts(fields@),
                    start as int,
                    start + 2 * ACTION_EFFECT_COUNT,
                )
                &&& effects@ == action_effects_at(
                    field_texts(fields@),
                    start as int,
                    ACTION_EFFECT_COUNT as nat,
                )
            },
            Err(e) => match e {
                DecodeError::MalformedNumber { field } => first_malformed_in(
                    field_texts(fields@),
                    start as int,
                    start + 2 * ACTION_EFFECT_COUNT,
                    field as int,
                ),
                _ => false,
            },
        },
{
    let blank = ActionEffect {
        param0: 0,
        param1: 0,
        severity: 0,
        effect_category: 0,
        value: 0,
        flags: 0,
        multiplier: 0,
    };
    let mut out = [blank;ACTION_EFFECT_COUNT];
    let ghost f = field_texts(fields@);
    let mut k: usize = 0;
    while k < ACTION_EFFECT_COUNT
        invariant
            0 <= k <= ACTION_EFFECT_COUNT,
            start + 2 * ACTION_EFFECT_COUNT <= fields.len(),
            f == field_texts(fields@),
            all_words_in(f, start as int, start + 2 * k),
            forall|j: int|
                0 <= j < k ==> #[trigger] out@[j] == action_effect_of(
                    hex_word(f[start + 2 * j]),
                    hex_word(f[start + 2 * j + 1]),
                ),
        decreases ACTION_EFFECT_COUNT - k,
    {
        let at = start + 2 * k;
        match decode_action_effect(fields[at], fields[at + 1]) {
            Ok(effect) => {
                out[k] = effect;
            },
            Err(e) => {
                let field = match e {
                    DecodeError::MalformedNumber { field } => at + field,
                    _ => at,
                };
                return Err(DecodeError::MalformedNumber { field });
            },
        }
        k += 1;
    }
    Ok(out)
}

/// Decodes `count` status effects from consecutive fields, from position
/// `start` on, triple by triple.
fn decode_status_effects(fields: &[&str], start: usize, count: usize) -> (r: Result<
    Vec<StatusEffect>,
    DecodeError,
>)
    requires
        start + 3 * count <= fields.len(),
    ensures
        match r {
            Ok(effects) => {
                &&& all_words_in(field_texts(fields@), start as int, start + 3 * count)
                &&& effects@ == status_effects_at(field_texts(fields@), start as int, count as nat)
            },
            Err(e) => match e {
                DecodeError::MalformedNumber { field } => first_malformed_in(
                    field_texts(fields@),
                    start as int,
                    start + 3 * count,
                    field as int,
                ),
                _ => false,
            },
        },
{
    let mut out: Vec<StatusEffect> = Vec::new();
    let ghost f = field_texts(fields@);
    let mut k: usize = 0;
    while k < count
        invariant
            0 <= k <= count,
            start + 3 * count <= fields.len(),
            f == field_texts(fields@),
            all_words_in(f, start as int, start + 3 * k),
            out@.len() == k,
            forall|j: int|
                0 <= j < k ==> #[trigger] out@[j] == status_effect_of(
                    hex_word(f[start + 3 * j]),
                    hex_word(f[start + 3 * j + 1]),
                    hex_word(f[start + 3 * j + 2]),
                ),
        decreases count - k,
    {
        let at = start + 3 * k;
        match decode_status_effect(fields[at], fields[at + 1], fields[at + 2]) {
            Ok(effect) => {
                out.push(effect);
            },
            Err(e) => {
                let field = match e {
                    DecodeError::MalformedNumber { field } => at + field,
                    _ => at,
                };
                return Err(DecodeError::MalformedNumber { field });
            },
        }
        k += 1;
    }
    Ok(out)
}

/// Whether the ability layout reads the field at position `i` as a number:
/// every field of the layout but the three names.
pub open spec fn ability_field_is_numeric(i: int) -> bool {
    &&& 0 <= i < ABILITY_FIELD_COUNT
    &&& i != SOURCE_ACTOR_AT + 1
    &&& i != ABILITY_AT + 1
    &&& i != TARGET_ACTOR_AT + 1
}

/// The ability record that the fields `f` spell at `timestamp`.
///
/// In order: the source actor (2 fields), the ability (2), the target actor
/// (2), eight action effects (16), the source's resources (6) and position
/// (4), the target's resources (6) and position (4), the sequence id (1).
pub open spec fn ability_record_of(timestamp: i64, f: Seq<Seq<char>>) -> AbilityRecordView {
    AbilityRecordView {
        timestamp,
        source_actor: identity_at(f, SOURCE_ACTOR_AT as int),
        ability: identity_at(f, ABILITY_AT as int),
        target_actor: identity_at(f, TARGET_ACTOR_AT as int),
        action_effects: action_effects_at(f, ACTION_EFFECTS_AT as int, ACTION_EFFECT_COUNT as nat),
        source_resources: words_at(f, SOURCE_RESOURCES_AT as int, RESOURCE_COUNT as nat),
        source_position: bit_patterns_at(f, SOURCE_POSITION_AT as int, POSITION_COUNT as nat),
        target_resources: words_at(f, TARGET_RESOURCES_AT as int, RESOURCE_COUNT as nat),
        target_position: bit_patterns_at(f, TARGET_POSITION_AT as int, POSITION_COUNT as nat),
        sequence_id: hex_word(f[SEQUENCE_ID_AT as int]),
    }
}

/// Whether `r` is what decoding the fields `f` as an ability record gives.
///
/// Fewer than 43 fields are a truncated record. Otherwise the first numeric
/// field that does not spell a 32-bit word is reported by its position; if
/// there is none, the record is the one the fields spell. Fields beyond the
/// 43rd are not read.
pub open spec fn ability_decoding(
    timestamp: i64,
    f: Seq<Seq<char>>,
    r: Result<AbilityRecord, DecodeError>,
) -> bool {
    match r {
        Ok(record) => {
            &&& f.len() >= ABILITY_FIELD_COUNT
            &&& forall|j: int| ability_field_is_numeric(j) ==> is_hex_word(#[trigger] f[j])
            &&& record@ == ability_record_of(timestamp, f)
        },
        Err(DecodeError::TruncatedRecord) => f.len() < ABILITY_FIELD_COUNT,
        Err(DecodeError::MalformedNumber { field }) => {
            &&& f.len() >= ABILITY_FIELD_COUNT
            &&& ability_field_is_numeric(field as int)
            &&& !is_hex_word(f[field as int])
            &&& forall|j: int|
                0 <= j < field && ability_field_is_numeric(j) ==> is_hex_word(#[trigger] f[j])
        },
        Err(_) => false,
    }
}

/// Decodes an ability record from the fields of one line.
pub fn decode_ability_record(timestamp: i64, fields: &[&str]) -> (r: Result<
    AbilityRecord,
    DecodeError,
>)
    ensures
        ability_decoding(timestamp, field_texts(fields@), r),
{
    if fields.len() < ABILITY_FIELD_COUNT {
        return Err(DecodeError::TruncatedRecord);
    }
    let source_actor = match decode_identity_at(fields, SOURCE_ACTOR_AT) {
        Ok(a) => a,
        Err(e) => {
            return Err(e);
        },
    };
    let ability = match decode_identity_at(fields, ABILITY_AT) {
        Ok(a) => a,
        Err(e) => {
            return Err(e);
        },
    };
    let target_actor = match decode_identity_at(fields, TARGET_ACTOR_AT) {
        Ok(a) => a,
        Err(e) => {
            return Err(e);
        },
    };
    let action_effects = match decode_action_effects(fields, ACTION_EFFECTS_AT) {
        Ok(effects) => effects,
        Err(e) => {
            return Err(e);
        },
    };
    let source_resources = match decode_words::<RESOURCE_COUNT>(fields, SOURCE_RESOURCES_AT) {
        Ok(words) => words,
        Err(e) => {
            return Err(e);
        },
    };
    let source_position = match decode_bit_patterns::<POSITION_COUNT>(
        fields,
        SOURCE_POSITION_AT,
    ) {
        Ok(patterns) => patterns,
        Err(e) => {
            return Err(e);
        },
    };
    let target_resources = match decode_words::<RESOURCE_COUNT>(fields, TARGET_RESOURCES_AT) {
        Ok(words) => words,
        Err(e) => {
            return Err(e);
        },
    };
    let target_position = match decode_bit_patterns::<POSITION_COUNT>(
        fields,
        TARGET_POSITION_AT,
    ) {
        Ok(patterns) => patterns,
        Err(e) => {
            return Err(e);
        },
    };
    let sequence_id = match decode_word_at(fields, SEQUENCE_ID_AT) {
        Ok(w) => w,
        Err(e) => {
            return Err(e);
        },
    };
    Ok(
        AbilityRecord {
            timestamp,
            source_actor,
            source_resources,
            source_position,
            target_actor,
            target_resources,
            target_position,
            ability,
            action_effects,
            sequence_id,
        },
    )
}

/// Whether the status-list layout reads the field at position `i` of `len`
/// fields as a number: every field but the actor's name, the class label
/// and the reserved last field.
pub open spec fn status_field_is_numeric(len: int, i: int) -> bool {
    &&& 0 <= i < len - 1
    &&& i != STATUS_ACTOR_AT + 1
    &&& i != CLASS_LABEL_AT
}

/// Whether `len` fields fill the status-list layout: the 13 fields of the
/// fixed part, whole triples of status-effect fields, and the reserved last
/// field.
pub open spec fn status_fields_aligned(len: int) -> bool {
    len > STATUS_EFFECTS_AT && (len - STATUS_EFFECTS_AT - 1) % 3 == 0
}

/// Number of status effects that `len` aligned fields hold.
pub open spec fn status_effect_count(len: int) -> nat {
    ((len - STATUS_EFFECTS_AT - 1) / 3) as nat
}

/// The status-list record that the fields `f` spell.
///
/// In order: the actor (2 fields), the class label (1), the actor's
/// resources (6) and position (4), then the status effects, three fields
/// each. The last field is reserved for the integrity suffix and not
/// decoded.
pub open spec fn status_list_record_of(f: Seq<Seq<char>>) -> StatusListRecordView {
    StatusListRecordView {
        actor: identity_at(f, STATUS_ACTOR_AT as int),
        class_label: f[CLASS_LABEL_AT as int],
        resources: words_at(f, STATUS_RESOURCES_AT as int, RESOURCE_COUNT as nat),
        position: bit_patterns_at(f, STATUS_POSITION_AT as int, POSITION_COUNT as nat),
        status_effects: status_effects_at(
            f,
            STATUS_EFFECTS_AT as int,
            status_effect_count(f.len() as int),
        ),
    }
}

/// Whether `r` is what decoding the fields `f` as a status-list record
/// gives.
///
/// Fewer than 13 fields are a truncated record. Otherwise the fields after
/// the 13th, less the reserved last one, have to divide into triples; they
/// do not where the reserved field itself is missing. Otherwise the first
/// numeric field that does not spell a 32-bit word is reported by its
/// position; if there is none, the record is the one the fields spell.
pub open spec fn status_list_decoding(
    f: Seq<Seq<char>>,
    r: Result<StatusListRecord, DecodeError>,
) -> bool {
    match r {
        Ok(record) => {
            &&& status_fields_aligned(f.len() as int)
            &&& forall|j: int|
                status_field_is_numeric(f.len() as int, j) ==> is_hex_word(#[trigger] f[j])
            &&& record@ == status_list_record_of(f)
        },
        Err(DecodeError::TruncatedRecord) => f.len() < STATUS_EFFECTS_AT,
        Err(DecodeError::MisalignedEffectList) => {
            &&& f.len() >= STATUS_EFFECTS_AT
            &&& !status_fields_aligned(f.len() as int)
        },
        Err(DecodeError::MalformedNumber { field }) => {
            &&& status_fields_aligned(f.len() as int)
            &&& status_field_is_numeric(f.len() as int, field as int)
            &&& !is_hex_word(f[field as int])
            &&& forall|j: int|
                0 <= j < field && status_field_is_numeric(f.len() as int, j) ==> is_hex_word(
                    #[trigger] f[j],
                )
        },
        Err(DecodeError::MalformedChecksum) => false,
    }
}

/// Decodes a status-list record from the fields of one line.
pub fn decode_status_list_record(fields: &[&str]) -> (r: Result<StatusListRecord, DecodeError>)
    ensures
        status_list_decoding(field_texts(fields@), r),
{
    let n = fields.len();
    if n < STATUS_EFFECTS_AT {
        return Err(DecodeError::TruncatedRecord);
    }
    if n == STATUS_EFFECTS_AT || (n - STATUS_EFFECTS_AT - 1) % 3 != 0 {
        return Err(DecodeError::MisalignedEffectList);
    }
    let count = (n - STATUS_EFFECTS_AT - 1) / 3;
    let actor = match decode_identity_at(fields, STATUS_ACTOR_AT) {
        Ok(a) => a,
        Err(e) => {
            return Err(e);
        },
    };
    let class_label = fields[CLASS_LABEL_AT].to_owned();
    let resources = match decode_words::<RESOURCE_COUNT>(fields, STATUS_RESOURCES_AT) {
        Ok(words) => words,
        Err(e) => {
            return Err(e);
        },
    };
    let position = match decode_bit_patterns::<POSITION_COUNT>(fields, STATUS_POSITION_AT) {
        Ok(patterns) => patterns,
        Err(e) => {
            return Err(e);
        },
    };
    let status_effects = match decode_status_effects(fields, STATUS_EFFECTS_AT, count) {
        Ok(effects) => effects,
        Err(e) => {
            return Err(e);
        },
    };
    Ok(StatusListRecord { actor, class_label, resources, position, status_effects })
}

/// Whether two outcomes of a decode are the same: the same error, or
/// records that hold the same values, bit for bit.
pub open spec fn same_outcome<R: View>(a: Result<R, DecodeError>, b: Result<R, DecodeError>) -> bool {
    match (a, b) {
        (Ok(x), Ok(y)) => x@ == y@,
        (Err(x), Err(y)) => x == y,
        _ => false,
    }
}

/// Decoding an ability record keeps no state: the fields and the timestamp
/// settle the outcome, so decoding them again gives the same outcome.
pub proof fn lemma_ability_decoding_is_unique(
    timestamp: i64,
    f: Seq<Seq<char>>,
    first: Result<AbilityRecord, DecodeError>,
    second: Result<AbilityRecord, DecodeError>,
)
    requires
        ability_decoding(timestamp, f, first),
        ability_decoding(timestamp, f, second),
    ensures
        same_outcome(first, second),
{
}

/// Decoding a status-list record keeps no state: the fields settle the
/// outcome, so decoding them again gives the same outcome.
pub proof fn lemma_status_list_decoding_is_unique(
    f: Seq<Seq<char>>,
    first: Result<StatusListRecord, DecodeError>,
    second: Result<StatusListRecord, DecodeError>,
)
    requires
        status_list_decoding(f, first),
        status_list_decoding(f, second),
    ensures
        same_outcome(first, second),
{
}

} // verus!
