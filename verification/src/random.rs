//! Fresh bytes from the operating system.

use vstd::prelude::*;
use rand::rngs::OsRng;
use rand::RngCore;

verus! {

/// The error of the `rand` crate.
#[verifier::external_type_specification]
#[verifier::external_body]
pub struct ExRandError(rand::Error);

/// Calls `OsRng::try_fill_bytes` of the `rand` crate on a fresh array.
///
/// Trusted: nothing. The bytes differ from call to call, and the call fails
/// where the operating system gives none.
#[verifier::external_body]
pub(crate) fn os_random<const N: usize>() -> (res: Result<[u8; N], rand::Error>) {
    let mut bytes = [0u8; N];
    OsRng.try_fill_bytes(&mut bytes).map(|_| bytes)
}

} // verus!
