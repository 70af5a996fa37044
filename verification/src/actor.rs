//! Identities: a numeric id paired with a name.
//!
//! Actors, abilities and classes all share this two-field shape.

use vstd::prelude::*;
use crate::error::DecodeError;
use crate::number::{hex_word, is_hex_word, u32_from_hex};

verus! {

/// An id and the name that goes with it.
#[derive(Clone, Debug, PartialEq, Eq)]
pub struct ActorIdentity {
    pub id: u32,
    pub name: String,
}

/// What an [`ActorIdentity`] holds, with the name as a sequence of characters.
pub struct ActorIdentityView {
    pub id: u32,
    pub name: Seq<char>,
}

impl View for ActorIdentity {
    type V = ActorIdentityView;

    open spec fn view(&self) -> ActorIdentityView {
        ActorIdentityView { id: self.id, name: self.name@ }
    }
}

/// The identity that an id field and a name field spell: the id is the word
/// of the first, the name is the second as it stands.
pub open spec fn actor_identity_of(field_id: Seq<char>, field_name: Seq<char>) -> ActorIdentityView {
    ActorIdentityView { id: hex_word(field_id), name: field_name }
}

/// Decodes an identity from its two fields.
///
/// The id field has to spell a 32-bit word; the name is taken over verbatim,
/// whatever it holds.
pub fn decode_actor_identity(field_id: &str, field_name: &str) -> (r: Result<
    ActorIdentity,
    DecodeError,
>)
    ensures
        match r {
            Ok(a) => is_hex_word(field_id@) && a@ == actor_identity_of(field_id@, field_name@),
            Err(e) => !is_hex_word(field_id@) && e == (DecodeError::MalformedNumber { field: 0 }),
        },
{
    match u32_from_hex(field_id) {
        Ok(id) => Ok(ActorIdentity { id, name: field_name.to_owned() }),
        Err(e) => Err(e),
    }
}

} // verus!
