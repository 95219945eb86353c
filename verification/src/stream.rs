//! The chunk cipher: XChaCha20-Poly1305 in the STREAM construction with a
//! 32-bit big-endian counter, one chunk at a time.
//!
//! The cipher itself is not verified here. What this module takes on trust
//! about it is stated in the contracts of `seal_segment` and `open_segment`;
//! the counter that numbers the chunks is kept, and verified, here.

use vstd::prelude::*;
use chacha20poly1305::aead::stream::{NewStream, StreamBE32, StreamPrimitive};
use chacha20poly1305::aead::NewAead;
use chacha20poly1305::XChaCha20Poly1305;
use crate::error::CryptError;
use crate::format::{copy_array, CHUNK_LEN, KEY_LEN, MAX_POSITION, SEALED_CHUNK_LEN, TAG_LEN};
use crate::secret::{wipe_array, wipe_vec};

verus! {

/// The error of the `aead` crate, which carries no detail by design.
#[verifier::external_type_specification]
#[verifier::external_body]
pub struct ExAeadError(chacha20poly1305::aead::Error);

/// What `StreamBE32::<XChaCha20Poly1305>::encrypt` returns for a plaintext
/// under a key, a stream nonce, a position in the stream and the last-chunk
/// flag: the ciphertext followed by its tag.
pub uninterp spec fn stream_sealed(
    key: Seq<u8>,
    nonce: Seq<u8>,
    position: u32,
    last: bool,
    plaintext: Seq<u8>,
) -> Seq<u8>;

/// What `StreamBE32::<XChaCha20Poly1305>::decrypt` returns for a sealed chunk
/// under a key, a stream nonce, a position in the stream and the last-chunk
/// flag: the plaintext, or `None` where the chunk does not verify.
pub uninterp spec fn stream_opened(
    key: Seq<u8>,
    nonce: Seq<u8>,
    position: u32,
    last: bool,
    sealed: Seq<u8>,
) -> Option<Seq<u8>>;

/// `sealed` is what the cipher makes of `plaintext` at this place in the
/// stream, and what it opens to `plaintext` again.
pub open spec fn authentic(
    key: Seq<u8>,
    nonce: Seq<u8>,
    position: u32,
    last: bool,
    plaintext: Seq<u8>,
    sealed: Seq<u8>,
) -> bool {
    &&& sealed == stream_sealed(key, nonce, position, last, plaintext)
    &&& sealed.len() == plaintext.len() + TAG_LEN
    &&& stream_opened(key, nonce, position, last, sealed) == Some(plaintext)
}

/// What opening a sealed chunk gives: nothing shorter than a tag verifies.
pub open spec fn opened_chunk(
    key: Seq<u8>,
    nonce: Seq<u8>,
    position: u32,
    last: bool,
    sealed: Seq<u8>,
) -> Option<Seq<u8>> {
    if sealed.len() < TAG_LEN {
        None
    } else {
        stream_opened(key, nonce, position, last, sealed)
    }
}

/// Calls `StreamBE32::encrypt` of the `aead` crate on an XChaCha20-Poly1305
/// cipher made from `key`, with no associated data.
///
/// Trusted: a chunk of at most `CHUNK_LEN` bytes is always sealed; the result
/// is the plaintext's length plus a 16-byte tag; and the cipher opens what it
/// has sealed, at the same place in the stream, to the same plaintext.
#[verifier::external_body]
fn seal_segment(
    key: &[u8; 32],
    nonce: &[u8; 19],
    position: u32,
    last: bool,
    plaintext: &[u8],
) -> (res: Result<Vec<u8>, chacha20poly1305::aead::Error>)
    requires
        plaintext@.len() <= CHUNK_LEN,
    ensures
        res is Ok,
        res matches Ok(sealed) ==> {
            &&& sealed@ == stream_sealed(key@, nonce@, position, last, plaintext@)
            &&& sealed@.len() == plaintext@.len() + TAG_LEN
            &&& stream_opened(key@, nonce@, position, last, sealed@) == Some(plaintext@)
        },
{
    let cipher = XChaCha20Poly1305::new(key.as_slice().into());
    let stream = StreamBE32::from_aead(cipher, nonce.as_slice().into());
    stream.encrypt(position, last, plaintext)
}

/// Calls `StreamBE32::decrypt` of the `aead` crate on an XChaCha20-Poly1305
/// cipher made from `key`, with no associated data.
///
/// Trusted: a plaintext that comes back is 16 bytes shorter than the chunk.
#[verifier::external_body]
fn open_segment(
    key: &[u8; 32],
    nonce: &[u8; 19],
    position: u32,
    last: bool,
    sealed: &[u8],
) -> (res: Result<Vec<u8>, chacha20poly1305::aead::Error>)
    requires
        TAG_LEN <= sealed@.len() <= SEALED_CHUNK_LEN,
    ensures
        match res {
            Ok(plaintext) => {
                &&& stream_opened(key@, nonce@, position, last, sealed@) == Some(plaintext@)
                &&& plaintext@.len() + TAG_LEN == sealed@.len()
            },
            Err(_) => stream_opened(key@, nonce@, position, last, sealed@) is None,
        },
{
    let cipher = XChaCha20Poly1305::new(key.as_slice().into());
    let stream = StreamBE32::from_aead(cipher, nonce.as_slice().into());
    stream.decrypt(position, last, sealed)
}

/// The sealing end of a stream: the key, the stream nonce, and the position
/// of the next chunk.
pub struct StreamEncryptor {
    key: [u8; 32],
    nonce: [u8; 19],
    position: u32,
}

impl StreamEncryptor {
    /// The key that chunks are sealed under.
    pub closed spec fn key(&self) -> Seq<u8> {
        self.key@
    }

    /// The nonce of the stream.
    pub closed spec fn nonce(&self) -> Seq<u8> {
        self.nonce@
    }

    /// The position that the next chunk is sealed at.
    pub closed spec fn position(&self) -> u32 {
        self.position
    }

    /// A stream at position 0. The key is taken into the stream, and the
    /// caller's copy of it is erased.
    pub fn new(key: &mut Vec<u8>, nonce: &[u8; 19]) -> (stream: Self)
        requires
            old(key)@.len() == KEY_LEN,
        ensures
            stream.key() == old(key)@,
            stream.nonce() == nonce@,
            stream.position() == 0,
            final(key)@.len() == 0,
    {
        let taken: [u8; 32] = copy_array(key.as_slice(), 0);
        assert(key@.subrange(0, 32) =~= key@);
        wipe_vec(key);
        StreamEncryptor { key: taken, nonce: *nonce, position: 0 }
    }

    /// Seals a chunk that is not the last of its stream, and moves on by one
    /// position. At the highest position nothing is sealed and nothing moves:
    /// that position is kept for the last chunk.
    pub fn encrypt_next(&mut self, chunk: &[u8]) -> (res: Result<Vec<u8>, CryptError>)
        requires
            chunk@.len() <= CHUNK_LEN,
        ensures
            final(self).key() == old(self).key(),
            final(self).nonce() == old(self).nonce(),
            match res {
                Ok(sealed) => {
                    &&& old(self).position() < MAX_POSITION
                    &&& final(self).position() == old(self).position() + 1
                    &&& authentic(
                        old(self).key(),
                        old(self).nonce(),
                        old(self).position(),
                        false,
                        chunk@,
                        sealed@,
                    )
                },
                Err(e) => {
                    &&& old(self).position() == MAX_POSITION
                    &&& final(self).position() == old(self).position()
                    &&& e == CryptError::StreamTooLong
                },
            },
    {
        if self.position == MAX_POSITION {
            return Err(CryptError::StreamTooLong);
        }
        match seal_segment(&self.key, &self.nonce, self.position, false, chunk) {
            Ok(sealed) => {
                self.position = self.position + 1;
                Ok(sealed)
            },
            // Not reached: the cipher seals every chunk of this size.
            Err(_) => Err(CryptError::StreamTooLong),
        }
    }

    /// Gives the stream up, and erases the key.
    pub(crate) fn discard(self) {
        let mut stream = self;
        wipe_array(&mut stream.key);
    }

    /// Seals the last chunk of the stream, which may be empty, and erases the
    /// key.
    pub fn encrypt_last(self, chunk: &[u8]) -> (sealed: Vec<u8>)
        requires
            chunk@.len() <= CHUNK_LEN,
        ensures
            authentic(self.key(), self.nonce(), self.position(), true, chunk@, sealed@),
    {
        let mut stream = self;
        let res = seal_segment(&stream.key, &stream.nonce, stream.position, true, chunk);
        wipe_array(&mut stream.key);
        match res {
            Ok(sealed) => sealed,
            // Not reached: the cipher seals every chunk of this size.
            Err(_) => Vec::new(),
        }
    }
}

/// The opening end of a stream: the key, the stream nonce, and the position
/// of the next chunk.
pub struct StreamDecryptor {
    key: [u8; 32],
    nonce: [u8; 19],
    position: u32,
}

impl StreamDecryptor {
    /// The key that chunks are opened under.
    pub closed spec fn key(&self) -> Seq<u8> {
        self.key@
    }

    /// The nonce of the stream.
    pub closed spec fn nonce(&self) -> Seq<u8> {
        self.nonce@
    }

    /// The position that the next chunk is opened at.
    pub closed spec fn position(&self) -> u32 {
        self.position
    }

    /// A stream at position 0. The key is taken into the stream, and the
    /// caller's copy of it is erased.
    pub fn new(key: &mut Vec<u8>, nonce: &[u8; 19]) -> (stream: Self)
        requires
            old(key)@.len() == KEY_LEN,
        ensures
            stream.key() == old(key)@,
            stream.nonce() == nonce@,
            stream.position() == 0,
            final(key)@.len() == 0,
    {
        let taken: [u8; 32] = copy_array(key.as_slice(), 0);
        assert(key@.subrange(0, 32) =~= key@);
        wipe_vec(key);
        StreamDecryptor { key: taken, nonce: *nonce, position: 0 }
    }

    /// Opens a chunk that is not the last of its stream, and moves on by one
    /// position. Where the chunk does not verify, or the position is the
    /// highest, nothing moves.
    pub fn decrypt_next(&mut self, chunk: &[u8]) -> (res: Result<Vec<u8>, CryptError>)
        requires
            chunk@.len() <= SEALED_CHUNK_LEN,
        ensures
            final(self).key() == old(self).key(),
            final(self).nonce() == old(self).nonce(),
            match res {
                Ok(plaintext) => {
                    &&& old(self).position() < MAX_POSITION
                    &&& final(self).position() == old(self).position() + 1
                    &&& plaintext@.len() + TAG_LEN == chunk@.len()
                    &&& opened_chunk(
                        old(self).key(),
                        old(self).nonce(),
                        old(self).position(),
                        false,
                        chunk@,
                    ) == Some(plaintext@)
                },
                Err(e) => {
                    &&& final(self).position() == old(self).position()
                    &&& if old(self).position() == MAX_POSITION {
                        e == CryptError::StreamTooLong
                    } else {
                        &&& e == CryptError::Authentication
                        &&& opened_chunk(
                            old(self).key(),
                            old(self).nonce(),
                            old(self).position(),
                            false,
                            chunk@,
                        ) is None
                    }
                },
            },
    {
        if self.position == MAX_POSITION {
            return Err(CryptError::StreamTooLong);
        }
        if chunk.len() < TAG_LEN {
            return Err(CryptError::Authentication);
        }
        match open_segment(&self.key, &self.nonce, self.position, false, chunk) {
            Ok(plaintext) => {
                self.position = self.position + 1;
                Ok(plaintext)
            },
            Err(_) => Err(CryptError::Authentication),
        }
    }

    /// Gives the stream up, and erases the key.
    pub(crate) fn discard(self) {
        let mut stream = self;
        wipe_array(&mut stream.key);
    }

    /// Opens the last chunk of the stream, and erases the key.
    pub fn decrypt_last(self, chunk: &[u8]) -> (res: Result<Vec<u8>, CryptError>)
        requires
            chunk@.len() <= SEALED_CHUNK_LEN,
        ensures
            match res {
                Ok(plaintext) => {
                    &&& plaintext@.len() + TAG_LEN == chunk@.len()
                    &&& opened_chunk(self.key(), self.nonce(), self.position(), true, chunk@)
                        == Some(plaintext@)
                },
                Err(e) => {
                    &&& e == CryptError::Authentication
                    &&& opened_chunk(self.key(), self.nonce(), self.position(), true, chunk@)
                        is None
                },
            },
    {
        let mut stream = self;
        if chunk.len() < TAG_LEN {
            wipe_array(&mut stream.key);
            return Err(CryptError::Authentication);
        }
        let res = open_segment(&stream.key, &stream.nonce, stream.position, true, chunk);
        wipe_array(&mut stream.key);
        match res {
            Ok(plaintext) => Ok(plaintext),
            Err(_) => Err(CryptError::Authentication),
        }
    }
}

} // verus!
