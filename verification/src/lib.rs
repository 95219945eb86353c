//! Password-based encryption of byte streams into a self-describing container.
//!
//! A container is `salt || nonce || chunk_0 || ... || chunk_last`. The key is
//! derived from the password and the salt with Argon2id; the chunks are sealed
//! with XChaCha20-Poly1305 in the STREAM construction, so every chunk is bound
//! to its position and to whether it is the last one.

pub mod container;
pub mod error;
pub mod format;
pub mod kdf;
pub mod naming;
pub mod random;
pub mod run;
pub mod secret;
pub mod stream;
