//! Random ids.

use vstd::prelude::*;

verus! {

/// Whether an id carries the version and the variant of a random UUID.
pub open spec fn is_random_id(id: u128) -> bool {
    &&& id / 0x1000_0000_0000_0000_0000 % 16 == 4
    &&& id / 0x4000_0000_0000_0000 % 4 == 2
}

/// Makes a new id with `uuid::Uuid::new_v4`.
///
/// Trusted: a version 4 UUID carries its version and its variant, whatever its random bits are.
#[verifier::external_body]
pub(crate) fn random_id() -> (id: u128)
    ensures
        is_random_id(id),
{
    uuid::Uuid::new_v4().as_u128()
}

} // verus!
