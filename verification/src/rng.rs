//! Random values for connection identifiers and worker selection.

use vstd::prelude::*;

verus! {

/// Relies on rand::random: a fresh 128-bit connection identifier. Nothing is
/// promised of the value; all logic holds for every outcome.
#[verifier::external_body]
pub fn random_u128() -> u128 {
    rand::random()
}

/// Relies on rand::random: a random machine word, used to pick a worker for
/// a client-added handle. Nothing is promised of the value.
#[verifier::external_body]
pub fn random_usize() -> usize {
    rand::random()
}

} // verus!
