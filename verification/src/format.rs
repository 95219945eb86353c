//! The sizes that fix the layout of a container.

use vstd::prelude::*;

verus! {

/// Bytes of salt at the start of a container.
pub const SALT_LEN: usize = 32;

/// Bytes of stream nonce that follow the salt.
pub const NONCE_LEN: usize = 19;

/// Bytes of the derived key.
pub const KEY_LEN: usize = 32;

/// Bytes of salt and nonce together: where the chunks begin.
pub const HEADER_LEN: usize = 51;

/// Bytes of plaintext in every chunk but the last.
pub const CHUNK_LEN: usize = 500;

/// Bytes of authentication tag that close every chunk.
pub const TAG_LEN: usize = 16;

/// Bytes of a sealed chunk that is not the last.
pub const SEALED_CHUNK_LEN: usize = 516;

/// The highest position that the 32-bit chunk counter can hold.
pub const MAX_POSITION: u32 = 0xffff_ffff;

/// The `N` bytes of `bytes` that begin at `start`.
pub(crate) fn copy_array<const N: usize>(bytes: &[u8], start: usize) -> (array: [u8; N])
    requires
        start + N <= bytes.len(),
    ensures
        array@ == bytes@.subrange(start as int, start + N),
{
    let mut array = [0u8; N];
    let mut i: usize = 0;
    while i < N
        invariant
            i <= N,
            start + N <= bytes.len(),
            forall|j: int| 0 <= j < i ==> array@[j] == bytes@[start + j],
        decreases N - i,
    {
        array[i] = bytes[start + i];
        i = i + 1;
    }
    assert(array@ =~= bytes@.subrange(start as int, start + N));
    array
}

} // verus!
