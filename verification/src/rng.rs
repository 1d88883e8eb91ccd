//! The randomness source used to seed boards.

use vstd::prelude::*;

verus! {

/// Relies on rand::random::<bool>: draws one boolean from the process-wide
/// generator. Nothing is promised of the value — every caller must be
/// correct whichever way the coin lands.
#[verifier::external_body]
pub(crate) fn random_bool() -> bool {
    rand::random()
}

} // verus!
