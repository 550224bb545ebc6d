//! Random bytes of the operating system.

use rand::RngCore;
use vstd::prelude::*;

verus! {

/// Calls `getrandom::fill` on a whole array. Nothing is claimed of the bytes;
/// where the operating system gives none, the reason comes back as text.
#[verifier::external_body]
pub(crate) fn random_array<const N: usize>() -> (result: Result<[u8; N], String>) {
    let mut bytes = [0u8; N];
    match getrandom::fill(&mut bytes) {
        Ok(()) => Ok(bytes),
        Err(error) => Err(error.to_string()),
    }
}

/// Calls `rand::rngs::OsRng::try_fill_bytes` on a whole array. Nothing is
/// claimed of the bytes; none come back where the operating system gives none.
#[verifier::external_body]
pub(crate) fn os_rng_array<const N: usize>() -> (bytes: Option<[u8; N]>) {
    let mut bytes = [0u8; N];
    match rand::rngs::OsRng.try_fill_bytes(&mut bytes) {
        Ok(()) => Some(bytes),
        Err(_) => None,
    }
}

} // verus!
