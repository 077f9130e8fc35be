//! Entropy source for the random-byte opcode and for random colors.

use vstd::prelude::*;
use rand::Rng;

verus! {

/// Relies on rand's `thread_rng` and `Rng::gen::<u8>`: draws one byte
/// from the thread-local generator. Nothing is promised of the value;
/// callers state what holds of every outcome.
#[verifier::external_body]
pub(crate) fn random_byte() -> u8 {
    rand::thread_rng().gen::<u8>()
}

} // verus!
