//! One file's transform: the mode is chosen by the file's name, the content
//! is sealed or opened, and the result is handed back to be written.
//!
//! Nothing here touches a file. The caller reads the source, and acts on the
//! outcome: it writes the content under the new name, and removes the source
//! only where the outcome says so.

use vstd::prelude::*;
use vstd::string::{StringExecFns, StringSliceAdditionalSpecFns};
use crate::container::{container_len, decrypt, encrypt, is_container_of, open_container};
use crate::error::CryptError;
use crate::format::{CHUNK_LEN, MAX_POSITION};
use crate::naming::{decrypted_name, encrypted_name, has_marker, marker, without_marker};

verus! {

/// The direction of a transform.
#[derive(Clone, Copy, Debug, PartialEq, Eq, Structural)]
pub enum Mode {
    /// A plain file was sealed into a container.
    Encrypt,
    /// A container was opened to a plain file.
    Decrypt,
}

/// What a transform has produced.
pub struct Outcome {
    /// The direction that the source's name chose.
    pub mode: Mode,
    /// The name to write the content under.
    pub dist: String,
    /// The content to write.
    pub contents: Vec<u8>,
    /// Whether the source is to be removed once the content is written.
    pub remove_source: bool,
}

/// Transforms one file, given its name and its content.
///
/// A name that ends in the marker chooses opening: the content is opened as
/// a container under the password, and the new name is the old one without
/// the marker. Any other name chooses sealing: the content is sealed into a
/// container, and the new name is the old one with the marker. The source is
/// to be removed exactly where the caller asked for it; an error asks for
/// nothing to be written or removed.
pub fn run_encrypt_decrypt(
    source_file_path: &str,
    source: &[u8],
    password: &str,
    delete_old: bool,
) -> (res: Result<Outcome, CryptError>)
    ensures
        match res {
            Ok(outcome) => {
                &&& outcome.remove_source == delete_old
                &&& if has_marker(source_file_path@) {
                    &&& outcome.mode == Mode::Decrypt
                    &&& outcome.dist@ == without_marker(source_file_path@)
                    &&& open_container(source@, password.spec_bytes()) == Ok::<
                        Seq<u8>,
                        CryptError,
                    >(outcome.contents@)
                } else {
                    &&& outcome.mode == Mode::Encrypt
                    &&& outcome.dist@ == source_file_path@ + marker()
                    &&& outcome.contents@.len() == container_len(source@.len())
                    &&& is_container_of(outcome.contents@, source@, password.spec_bytes())
                    &&& open_container(outcome.contents@, password.spec_bytes()) == Ok::<
                        Seq<u8>,
                        CryptError,
                    >(source@)
                }
            },
            Err(e) => if has_marker(source_file_path@) {
                open_container(source@, password.spec_bytes()) == Err::<Seq<u8>, CryptError>(e)
            } else {
                ||| e == CryptError::Io
                ||| e == CryptError::Derivation && password.spec_bytes().len() > 0xffff_ffff
                ||| {
                    &&& e == CryptError::StreamTooLong
                    &&& password.spec_bytes().len() <= 0xffff_ffff
                    &&& source@.len() / CHUNK_LEN as nat > MAX_POSITION
                }
            },
        },
{
    match decrypted_name(source_file_path) {
        Some(dist) => {
            match decrypt(source, password.as_bytes()) {
                Ok(contents) => Ok(
                    Outcome { mode: Mode::Decrypt, dist, contents, remove_source: delete_old },
                ),
                Err(e) => Err(e),
            }
        },
        None => {
            let dist = encrypted_name(source_file_path);
            match encrypt(source, password.as_bytes()) {
                Ok(contents) => Ok(
                    Outcome { mode: Mode::Encrypt, dist, contents, remove_source: delete_old },
                ),
                Err(e) => Err(e),
            }
        },
    }
}

/// The line that reports a finished transform of the file of this name.
pub fn status_line(mode: Mode, source_file_path: &str) -> (line: String)
    ensures
        line@ == (match mode {
            Mode::Encrypt => "Encrypted "@,
            Mode::Decrypt => "Decrypted "@,
        }) + source_file_path@,
{
    match mode {
        Mode::Encrypt => "Encrypted ".to_owned().concat(source_file_path),
        Mode::Decrypt => "Decrypted ".to_owned().concat(source_file_path),
    }
}

} // verus!
