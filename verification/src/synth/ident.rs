//! Module identities: random 128-bit values, written as text for people and
//! for files.

use vstd::prelude::*;

verus! {

/// The stable identity of a module.
pub type ModuleId = u128;

/// The bits of an identity that say how it was made.
pub const VERSION_MASK: u128 = 0x0000_0000_0000_F000_C000_0000_0000_0000;

/// The value of those bits in an identity drawn at random.
pub const VERSION_RANDOM: u128 = 0x0000_0000_0000_4000_8000_0000_0000_0000;

/// The text of an identity.
pub uninterp spec fn uuid_text(id: u128) -> Seq<char>;

/// Draws a fresh identity with `uuid::Uuid::new_v4` and hands it out as the
/// number `uuid::Uuid::as_u128` gives. The outcome is random; all that is
/// claimed of it are the version and variant bits that `new_v4` sets in every
/// identity it makes.
#[verifier::external_body]
pub(crate) fn fresh_id() -> (id: ModuleId)
    ensures
        id & VERSION_MASK == VERSION_RANDOM,
{
    uuid::Uuid::new_v4().as_u128()
}

/// Writes an identity as text: `uuid::Uuid::from_u128` followed by the
/// crate's `to_string`. The text depends on the number alone, which is all
/// the contract says of it.
#[verifier::external_body]
pub(crate) fn id_text(id: ModuleId) -> (text: String)
    ensures
        text@ == uuid_text(id),
{
    uuid::Uuid::from_u128(id).to_string()
}

/// An identity as text, as a file holds it.
pub fn text_of(id: ModuleId) -> (text: String)
    ensures
        text@ == uuid_text(id),
{
    id_text(id)
}

} // verus!
