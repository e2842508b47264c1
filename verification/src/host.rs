//! What the hosting platform hands to the world: the caller's identity and the
//! random number generator of the running transaction. Both are values of the
//! `spacetimedb` crate; nothing here is proved, each contract restates what the
//! crate documents.

use spacetimedb::rand::Rng;
use spacetimedb::{Identity, StdbRng};
use vstd::prelude::*;

verus! {

/// `spacetimedb::Identity`: a 256-bit number that names a caller. The world
/// never looks inside it; it only asks whether two identities are the same.
#[verifier::external_type_specification]
#[verifier::external_body]
pub struct ExIdentity(Identity);

/// `spacetimedb::StdbRng`: the random number generator that the host seeds for
/// one transaction.
#[verifier::external_type_specification]
#[verifier::external_body]
pub struct ExStdbRng(StdbRng);

/// `Identity`'s `==`, which compares the two 256-bit numbers. Claimed: it
/// answers `true` exactly when both are the same identity.
#[verifier::external_body]
pub(crate) fn same_identity(a: &Identity, b: &Identity) -> (same: bool)
    ensures
        same == (*a == *b),
{
    a == b
}

/// `rand::Rng::gen_range` on the half-open range `low..high`. The crate
/// documents a panic on an empty range, which `requires` rules out, and a
/// result inside the range. Which value comes back is left open.
#[verifier::external_body]
pub(crate) fn gen_range_u32(rng: &StdbRng, low: u32, high: u32) -> (value: u32)
    requires
        low < high,
    ensures
        low <= value < high,
{
    let mut rng = rng;
    rng.gen_range(low..high)
}

} // verus!
