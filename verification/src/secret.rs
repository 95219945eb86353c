//! Erasing secrets from memory, and the check of a password's confirmation.

use vstd::prelude::*;
use zeroize::Zeroize;
use crate::error::CryptError;

verus! {

/// Calls `Zeroize::zeroize` of the `zeroize` crate on an array of bytes.
///
/// Trusted: every byte is zero afterwards.
#[verifier::external_body]
pub(crate) fn wipe_array<const N: usize>(bytes: &mut [u8; N])
    ensures
        forall|i: int| 0 <= i < N ==> final(bytes)@[i] == 0u8,
{
    bytes.zeroize();
}

/// Calls `Zeroize::zeroize` of the `zeroize` crate on a vector of bytes.
///
/// Trusted: the vector is empty afterwards (its bytes are set to zero, then
/// it is cleared).
#[verifier::external_body]
pub(crate) fn wipe_vec(bytes: &mut Vec<u8>)
    ensures
        final(bytes)@.len() == 0,
{
    bytes.zeroize();
}

/// Calls `Zeroize::zeroize` of the `zeroize` crate on a string.
///
/// Trusted: the string is empty afterwards (its bytes are set to zero, then
/// it is cleared).
#[verifier::external_body]
pub(crate) fn wipe_string(text: &mut String)
    ensures
        final(text)@.len() == 0,
{
    text.zeroize();
}

/// Accepts or refuses a password that was typed twice.
///
/// Where the two copies are the same, the password is kept and the
/// confirmation erased. Where they differ, the password is refused with
/// `PasswordMismatch` and both copies are erased.
pub fn confirm_password(password: &mut String, confirm: &mut String) -> (res: Result<
    (),
    CryptError,
>)
    ensures
        final(confirm)@.len() == 0,
        match res {
            Ok(_) => old(password)@ == old(confirm)@ && final(password)@ == old(password)@,
            Err(e) => {
                &&& old(password)@ != old(confirm)@
                &&& e == CryptError::PasswordMismatch
                &&& final(password)@.len() == 0
            },
        },
{
    let same = *password == *confirm;
    wipe_string(confirm);
    if same {
        Ok(())
    } else {
        wipe_string(password);
        Err(CryptError::PasswordMismatch)
    }
}

} // verus!
