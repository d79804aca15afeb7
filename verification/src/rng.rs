//! The one source of randomness: a fresh byte drawn for each `Cxkk`
//! instruction.

use vstd::prelude::*;
use rand::Rng;

verus! {

/// Relies on rand::thread_rng and rand::Rng::gen::<u8>: draws one random
/// byte. Nothing is promised of the value; every caller must be correct
/// for all 256 outcomes.
#[verifier::external_body]
pub(crate) fn random_byte() -> u8 {
    rand::thread_rng().gen::<u8>()
}

} // verus!
