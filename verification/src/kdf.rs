//! The key derivation unit: a password and a salt become a 32-byte key under
//! Argon2id with fixed cost parameters.
//!
//! The parameters are part of the format. They are not stored in a container,
//! so sealing and opening agree on them only because both take them from here.

use vstd::prelude::*;
use crate::error::CryptError;
use crate::format::KEY_LEN;

verus! {

/// The way Argon2 addresses its memory.
#[derive(Clone, Copy, Debug, PartialEq, Eq, Structural)]
pub enum KdfVariant {
    /// Data-dependent addressing.
    Argon2d,
    /// Data-independent addressing.
    Argon2i,
    /// Data-independent addressing in the first half of the first pass,
    /// data-dependent addressing after it.
    Argon2id,
}

impl KdfVariant {
    /// The number that Argon2 mixes into the hash for this variant.
    pub open spec fn code(self) -> u32 {
        match self {
            KdfVariant::Argon2d => 0,
            KdfVariant::Argon2i => 1,
            KdfVariant::Argon2id => 2,
        }
    }
}

/// The cost parameters of a derivation.
#[derive(Clone, Copy, Debug, PartialEq, Eq, Structural)]
pub struct KdfConfig {
    /// How memory is addressed.
    pub variant: KdfVariant,
    /// Bytes of output.
    pub hash_length: u32,
    /// Lanes of memory that can be filled side by side.
    pub lanes: u32,
    /// Memory in KiB.
    pub mem_cost: u32,
    /// Passes over the memory.
    pub time_cost: u32,
}

impl KdfConfig {
    /// The parameters lie in the ranges that Argon2 takes, with the memory
    /// small enough to be allocated in one piece on every machine.
    pub open spec fn accepted(self) -> bool {
        &&& 1 <= self.lanes <= 0xff_ffff
        &&& 8 * self.lanes <= self.mem_cost <= 0x10_0000
        &&& 1 <= self.time_cost
        &&& 4 <= self.hash_length <= 0x10_0000
    }
}

/// The parameters that every container is sealed and opened with.
pub open spec fn spec_argon2_config() -> KdfConfig {
    KdfConfig {
        variant: KdfVariant::Argon2id,
        hash_length: 32,
        lanes: 8,
        mem_cost: 16384,
        time_cost: 8,
    }
}

/// The parameters that every container is sealed and opened with: Argon2id,
/// 32 bytes of output, 8 lanes, 16 MiB of memory, 8 passes.
pub fn argon2_config() -> (config: KdfConfig)
    ensures
        config == spec_argon2_config(),
        config.accepted(),
{
    KdfConfig {
        variant: KdfVariant::Argon2id,
        hash_length: 32,
        lanes: 8,
        mem_cost: 16 * 1024,
        time_cost: 8,
    }
}

/// The error of the `argon2` crate.
#[verifier::external_type_specification]
#[verifier::external_body]
pub struct ExArgon2Error(argon2::Error);

/// What `argon2::hash_raw` returns, where it returns a hash, for a password
/// and a salt under a variant (by its number), an output length, and the
/// numbers of lanes, KiB of memory and passes; with version 0x13, no secret,
/// no associated data.
pub uninterp spec fn argon2_hash(
    password: Seq<u8>,
    salt: Seq<u8>,
    variant: u32,
    hash_length: u32,
    lanes: u32,
    mem_cost: u32,
    time_cost: u32,
) -> Seq<u8>;

/// The key that a password and a salt give under the fixed parameters.
pub open spec fn derived_key(password: Seq<u8>, salt: Seq<u8>) -> Seq<u8> {
    let config = spec_argon2_config();
    argon2_hash(
        password,
        salt,
        config.variant.code(),
        config.hash_length,
        config.lanes,
        config.mem_cost,
        config.time_cost,
    )
}

/// Calls `argon2::hash_raw` with a configuration made of `config`'s fields
/// and the crate's defaults for the rest.
///
/// Trusted: with parameters in range and a 32-byte salt, the call fails only
/// on a password of more than `u32::MAX` bytes, and a hash that comes back
/// has the length asked for.
#[verifier::external_body]
fn hash_raw(password: &[u8], salt: &[u8; 32], config: &KdfConfig) -> (res: Result<
    Vec<u8>,
    argon2::Error,
>)
    requires
        config.accepted(),
    ensures
        res is Ok <==> password@.len() <= 0xffff_ffff,
        res matches Ok(hash) ==> {
            &&& hash@ == argon2_hash(
                password@,
                salt@,
                config.variant.code(),
                config.hash_length,
                config.lanes,
                config.mem_cost,
                config.time_cost,
            )
            &&& hash@.len() == config.hash_length
        },
{
    let variant = match config.variant {
        KdfVariant::Argon2d => argon2::Variant::Argon2d,
        KdfVariant::Argon2i => argon2::Variant::Argon2i,
        KdfVariant::Argon2id => argon2::Variant::Argon2id,
    };
    let config = argon2::Config {
        variant,
        hash_length: config.hash_length,
        lanes: config.lanes,
        mem_cost: config.mem_cost,
        time_cost: config.time_cost,
        ..Default::default()
    };
    argon2::hash_raw(password, salt, &config)
}

/// Derives the 32-byte key of a password and a salt.
///
/// Fails with `Derivation` exactly on a password that Argon2 does not take:
/// one of more than `u32::MAX` bytes.
pub fn derive_key(password: &[u8], salt: &[u8; 32]) -> (res: Result<Vec<u8>, CryptError>)
    ensures
        match res {
            Ok(key) => {
                &&& password@.len() <= 0xffff_ffff
                &&& key@.len() == KEY_LEN
                &&& key@ == derived_key(password@, salt@)
            },
            Err(e) => password@.len() > 0xffff_ffff && e == CryptError::Derivation,
        },
{
    let config = argon2_config();
    match hash_raw(password, salt, &config) {
        Ok(key) => Ok(key),
        Err(_) => Err(CryptError::Derivation),
    }
}

} // verus!
