//! The machine's source of random bytes for the masked-random instruction.

use vstd::prelude::*;

verus! {

/// Relies on rand::random::<u8>: a byte drawn from the thread-local
/// generator. Nothing is promised of the value; every caller must be
/// correct for every byte that can come back.
#[verifier::external_body]
pub(crate) fn random_byte() -> u8 {
    rand::random::<u8>()
}

} // verus!
