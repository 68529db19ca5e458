//! Fresh identifiers.
use vstd::prelude::*;

verus! {

/// The bits of an identifier that tell its kind: the version and the variant.
pub open spec fn kind_bits(id: u128) -> u128 {
    id & 0xF000_C000_0000_0000_0000u128
}

/// The kind bits of a random identifier: version 4, variant 1.
pub open spec fn random_kind() -> u128 {
    0x4000_8000_0000_0000_0000u128
}

/// Draws a random identifier with `uuid::Uuid::new_v4` and hands out its 128
/// bits as `Uuid::as_u128` gives them. The value is random; what is claimed of
/// it is what `new_v4` fixes in every identifier it makes: the four version
/// bits hold 4 and the two variant bits hold binary 10. `new_v4` takes its
/// random bits from the operating system and does not return if the operating
/// system has none to give.
#[verifier::external_body]
pub(crate) fn fresh_id() -> (id: u128)
    ensures
        kind_bits(id) == random_kind(),
{
    uuid::Uuid::new_v4().as_u128()
}

} // verus!
