//! The ways in which an operation of this library can fail.

use vstd::prelude::*;

verus! {

/// Why an operation was refused or gave up.
#[derive(Clone, Copy, Debug, PartialEq, Eq, Structural)]
pub enum CryptError {
    /// The operating system failed a request; inside the library this is its
    /// source of randomness, around it the file system.
    Io,
    /// The container is shorter than its fixed header.
    MalformedContainer,
    /// A chunk did not verify under the key and position it was opened with.
    Authentication,
    /// The key derivation function rejected its input.
    Derivation,
    /// The password and its confirmation differ.
    PasswordMismatch,
    /// The stream holds more chunks than the 32-bit chunk counter can number.
    StreamTooLong,
}

impl CryptError {
    /// The text shown to the user for this error.
    pub open spec fn spec_message(self) -> Seq<char> {
        match self {
            CryptError::Io => "input/output error"@,
            CryptError::MalformedContainer => "container is shorter than its header"@,
            CryptError::Authentication => "authentication failed: wrong password or damaged data"@,
            CryptError::Derivation => "key derivation rejected its parameters"@,
            CryptError::PasswordMismatch => "password did not match"@,
            CryptError::StreamTooLong => "too many chunks for one stream"@,
        }
    }

    /// The text shown to the user for this error.
    pub fn message(&self) -> (text: String)
        ensures
            text@ == self.spec_message(),
    {
        match self {
            CryptError::Io => "input/output error".to_owned(),
            CryptError::MalformedContainer => "container is shorter than its header".to_owned(),
            CryptError::Authentication => "authentication failed: wrong password or damaged data".to_owned(),
            CryptError::Derivation => "key derivation rejected its parameters".to_owned(),
            CryptError::PasswordMismatch => "password did not match".to_owned(),
            CryptError::StreamTooLong => "too many chunks for one stream".to_owned(),
        }
    }
}

} // verus!
