//! Fresh player identifiers.

use vstd::prelude::*;

verus! {

/// Whether `id` has the shape of a drawn identifier: its version field is 4
/// and its variant bits are `10`.
pub open spec fn spec_drawn(id: u128) -> bool {
    (id >> 76) & 0xf == 4 && (id >> 62) & 0x3 == 2
}

/// Draws a random identifier: `uuid::Uuid::new_v4`, handed out as the 128-bit
/// number that `Uuid::as_u128` gives for it.
///
/// Trusted, not proved: the version field of the result is 4 and its variant
/// bits are `10`, which is how `new_v4` masks the random bits it draws.
/// Nothing is claimed about the other bits; two draws may collide. The call
/// panics if the operating system cannot supply random bytes.
#[verifier::external_body]
pub(crate) fn fresh_id() -> (id: u128)
    ensures
        spec_drawn(id),
{
    uuid::Uuid::new_v4().as_u128()
}

} // verus!
