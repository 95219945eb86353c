//! The container: `salt || nonce || chunks`, sealed from and opened to a
//! plaintext held in memory.
//!
//! A plaintext is cut into pieces of `CHUNK_LEN` bytes. Every full piece is
//! sealed as a chunk that is not the last; what remains after the full
//! pieces, which may be nothing, is sealed as the last chunk. So a stream
//! always ends in a chunk of fewer than `SEALED_CHUNK_LEN` bytes, and one
//! that does not has lost its end.

use vstd::prelude::*;
use vstd::slice::slice_subrange;
use crate::error::CryptError;
use crate::format::{
    copy_array, CHUNK_LEN, HEADER_LEN, MAX_POSITION, NONCE_LEN, SALT_LEN, SEALED_CHUNK_LEN,
    TAG_LEN,
};
use crate::kdf::{derive_key, derived_key};
use crate::random::os_random;
use crate::secret::{wipe_array, wipe_vec};
use crate::stream::{authentic, opened_chunk, StreamDecryptor, StreamEncryptor};

verus! {

/// The salt that a container starts with.
pub open spec fn container_salt(container: Seq<u8>) -> Seq<u8> {
    container.subrange(0, SALT_LEN as int)
}

/// The stream nonce that follows the salt.
pub open spec fn container_nonce(container: Seq<u8>) -> Seq<u8> {
    container.subrange(SALT_LEN as int, HEADER_LEN as int)
}

/// The chunks: all that follows the header.
pub open spec fn container_body(container: Seq<u8>) -> Seq<u8> {
    container.subrange(HEADER_LEN as int, container.len() as int)
}

/// The `j`-th piece of a plaintext: `CHUNK_LEN` bytes, or what is left.
pub open spec fn plain_piece(plaintext: Seq<u8>, j: int) -> Seq<u8> {
    plaintext.subrange(
        CHUNK_LEN * j,
        if CHUNK_LEN * j + CHUNK_LEN <= plaintext.len() {
            CHUNK_LEN * j + CHUNK_LEN
        } else {
            plaintext.len() as int
        },
    )
}

/// The `j`-th chunk of a stream: `SEALED_CHUNK_LEN` bytes, or what is left.
pub open spec fn sealed_piece(body: Seq<u8>, j: int) -> Seq<u8> {
    body.subrange(
        SEALED_CHUNK_LEN * j,
        if SEALED_CHUNK_LEN * j + SEALED_CHUNK_LEN <= body.len() {
            SEALED_CHUNK_LEN * j + SEALED_CHUNK_LEN
        } else {
            body.len() as int
        },
    )
}

/// The length of the stream of a plaintext of `len` bytes: a sealed chunk for
/// every full piece, and the last chunk with the rest.
pub open spec fn sealed_len(len: nat) -> nat {
    SEALED_CHUNK_LEN as nat * (len / CHUNK_LEN as nat) + len % CHUNK_LEN as nat + TAG_LEN as nat
}

/// The length of the container of a plaintext of `len` bytes.
pub open spec fn container_len(len: nat) -> nat {
    HEADER_LEN as nat + sealed_len(len)
}

/// `body` is the stream of `plaintext` under `key` and `nonce`: it has the
/// length of that stream, and its `j`-th chunk is the `j`-th piece of the
/// plaintext, sealed at position `j`, the piece after the full ones as the
/// last. With every chunk goes what `authentic` says of it: that the cipher
/// opens it to its piece again.
pub open spec fn is_sealed_stream(
    key: Seq<u8>,
    nonce: Seq<u8>,
    plaintext: Seq<u8>,
    body: Seq<u8>,
) -> bool {
    let n = (plaintext.len() / CHUNK_LEN as nat) as int;
    &&& n <= MAX_POSITION
    &&& body.len() == sealed_len(plaintext.len())
    &&& forall|j: int|
        #![trigger sealed_piece(body, j)]
        0 <= j <= n ==> authentic(
            key,
            nonce,
            j as u32,
            j == n,
            plain_piece(plaintext, j),
            sealed_piece(body, j),
        )
}

/// `container` holds `plaintext` under `password`: a header, and the stream
/// of the plaintext under the header's nonce and the key that the password
/// and the header's salt give.
pub open spec fn is_container_of(
    container: Seq<u8>,
    plaintext: Seq<u8>,
    password: Seq<u8>,
) -> bool {
    &&& container.len() >= HEADER_LEN
    &&& password.len() <= 0xffff_ffff
    &&& is_sealed_stream(
        derived_key(password, container_salt(container)),
        container_nonce(container),
        plaintext,
        container_body(container),
    )
}

/// The plaintext of the first `count` chunks of a stream, opened in order,
/// the chunk after the full ones as the last; `None` once a chunk does not
/// verify.
pub open spec fn opened_prefix(key: Seq<u8>, nonce: Seq<u8>, body: Seq<u8>, count: nat) -> Option<
    Seq<u8>,
>
    decreases count,
{
    if count == 0 {
        Some(Seq::empty())
    } else {
        let j = (count - 1) as int;
        match opened_prefix(key, nonce, body, (count - 1) as nat) {
            None => None,
            Some(head) => match opened_chunk(
                key,
                nonce,
                j as u32,
                j == body.len() / SEALED_CHUNK_LEN as nat,
                sealed_piece(body, j),
            ) {
                None => None,
                Some(piece) => Some(head + piece),
            },
        }
    }
}

/// What a stream opens to: the plaintext of all its chunks, where all verify.
pub open spec fn open_stream(key: Seq<u8>, nonce: Seq<u8>, body: Seq<u8>) -> Result<
    Seq<u8>,
    CryptError,
> {
    let n = body.len() / SEALED_CHUNK_LEN as nat;
    if n > MAX_POSITION {
        Err(CryptError::StreamTooLong)
    } else {
        match opened_prefix(key, nonce, body, n + 1) {
            Some(plaintext) => Ok(plaintext),
            None => Err(CryptError::Authentication),
        }
    }
}

/// What a container opens to under a password.
pub open spec fn open_container(container: Seq<u8>, password: Seq<u8>) -> Result<
    Seq<u8>,
    CryptError,
> {
    if container.len() < HEADER_LEN {
        Err(CryptError::MalformedContainer)
    } else if password.len() > 0xffff_ffff {
        Err(CryptError::Derivation)
    } else {
        open_stream(
            derived_key(password, container_salt(container)),
            container_nonce(container),
            container_body(container),
        )
    }
}

/// Once a chunk has failed, the stream has failed.
proof fn lemma_failure_stays(key: Seq<u8>, nonce: Seq<u8>, body: Seq<u8>, failed: nat, count: nat)
    requires
        failed <= count,
        opened_prefix(key, nonce, body, failed) is None,
    ensures
        opened_prefix(key, nonce, body, count) is None,
    decreases count,
{
    if failed < count {
        lemma_failure_stays(key, nonce, body, failed, (count - 1) as nat);
    }
}

/// The first `count` chunks of the stream of a plaintext open to the first
/// `count` pieces of it.
proof fn lemma_sealed_prefix_opens(
    key: Seq<u8>,
    nonce: Seq<u8>,
    plaintext: Seq<u8>,
    body: Seq<u8>,
    count: nat,
)
    requires
        is_sealed_stream(key, nonce, plaintext, body),
        count <= plaintext.len() / CHUNK_LEN as nat + 1,
    ensures
        opened_prefix(key, nonce, body, count) == Some(
            plaintext.subrange(
                0,
                if CHUNK_LEN * count <= plaintext.len() {
                    (CHUNK_LEN * count) as int
                } else {
                    plaintext.len() as int
                },
            ),
        ),
    decreases count,
{
    if count == 0 {
        assert(plaintext.subrange(0, 0) =~= Seq::<u8>::empty());
    } else {
        let j = (count - 1) as int;
        lemma_sealed_prefix_opens(key, nonce, plaintext, body, (count - 1) as nat);
        let n = (plaintext.len() / CHUNK_LEN as nat) as int;
        assert(body.len() / SEALED_CHUNK_LEN as nat == n);
        let piece = plain_piece(plaintext, j);
        let sealed = sealed_piece(body, j);
        assert(authentic(key, nonce, j as u32, j == n, piece, sealed));
        assert(opened_chunk(key, nonce, j as u32, j == n, sealed) == Some(piece));
        let head = plaintext.subrange(0, CHUNK_LEN * j);
        let end = if CHUNK_LEN * count <= plaintext.len() {
            (CHUNK_LEN * count) as int
        } else {
            plaintext.len() as int
        };
        assert(head + piece =~= plaintext.subrange(0, end));
    }
}

/// Round trip: a container that holds a plaintext under a password opens,
/// under that password, to that plaintext.
pub proof fn lemma_round_trip(container: Seq<u8>, plaintext: Seq<u8>, password: Seq<u8>)
    requires
        is_container_of(container, plaintext, password),
    ensures
        open_container(container, password) == Ok::<Seq<u8>, CryptError>(plaintext),
{
    let key = derived_key(password, container_salt(container));
    let nonce = container_nonce(container);
    let body = container_body(container);
    let n = plaintext.len() / CHUNK_LEN as nat;
    assert(body.len() / SEALED_CHUNK_LEN as nat == n);
    lemma_sealed_prefix_opens(key, nonce, plaintext, body, n + 1);
    assert(plaintext.subrange(0, plaintext.len() as int) =~= plaintext);
}

/// Chunk boundaries: the container of a plaintext of exactly `n` full pieces
/// holds `n` chunks of `SEALED_CHUNK_LEN` bytes, none of them the last, and
/// then a last chunk that is the bare tag of the empty piece; and it opens to
/// the plaintext.
pub proof fn lemma_exact_multiple_layout(
    container: Seq<u8>,
    plaintext: Seq<u8>,
    password: Seq<u8>,
    n: nat,
)
    requires
        is_container_of(container, plaintext, password),
        plaintext.len() == n * CHUNK_LEN,
    ensures
        container.len() == HEADER_LEN + n * SEALED_CHUNK_LEN + TAG_LEN,
        forall|j: int|
            #![trigger sealed_piece(container_body(container), j)]
            0 <= j < n ==> {
                &&& sealed_piece(container_body(container), j).len() == SEALED_CHUNK_LEN
                &&& authentic(
                    derived_key(password, container_salt(container)),
                    container_nonce(container),
                    j as u32,
                    false,
                    plain_piece(plaintext, j),
                    sealed_piece(container_body(container), j),
                )
            },
        sealed_piece(container_body(container), n as int).len() == TAG_LEN,
        authentic(
            derived_key(password, container_salt(container)),
            container_nonce(container),
            n as u32,
            true,
            Seq::<u8>::empty(),
            sealed_piece(container_body(container), n as int),
        ),
        open_container(container, password) == Ok::<Seq<u8>, CryptError>(plaintext),
{
    let key = derived_key(password, container_salt(container));
    let nonce = container_nonce(container);
    let body = container_body(container);
    assert(plaintext.len() / CHUNK_LEN as nat == n);
    assert(plaintext.len() % CHUNK_LEN as nat == 0);
    assert(plain_piece(plaintext, n as int) =~= Seq::<u8>::empty());
    assert(authentic(
        key,
        nonce,
        n as u32,
        true,
        plain_piece(plaintext, n as int),
        sealed_piece(body, n as int),
    ));
    lemma_round_trip(container, plaintext, password);
}

/// Truncation: a container cut inside its header is refused as malformed,
/// and one cut on a chunk boundary, or fewer than a tag's bytes after one,
/// fails authentication. Cutting off the last chunk is such a cut.
pub proof fn lemma_truncation_detected(
    container: Seq<u8>,
    plaintext: Seq<u8>,
    password: Seq<u8>,
    keep: nat,
)
    requires
        is_container_of(container, plaintext, password),
        keep < container.len(),
        keep < HEADER_LEN || (keep - HEADER_LEN) % (SEALED_CHUNK_LEN as int) < TAG_LEN,
    ensures
        open_container(container.subrange(0, keep as int), password) == Err::<
            Seq<u8>,
            CryptError,
        >(
            if keep < HEADER_LEN {
                CryptError::MalformedContainer
            } else {
                CryptError::Authentication
            },
        ),
        keep == container.len() - (plaintext.len() % CHUNK_LEN as nat + TAG_LEN) ==> keep
            >= HEADER_LEN && (keep - HEADER_LEN) % (SEALED_CHUNK_LEN as int) == 0,
{
    let cut = container.subrange(0, keep as int);
    if keep >= HEADER_LEN {
        let key = derived_key(password, container_salt(cut));
        let nonce = container_nonce(cut);
        let body = container_body(cut);
        let n = body.len() / SEALED_CHUNK_LEN as nat;
        assert(n <= plaintext.len() / CHUNK_LEN as nat);
        assert(sealed_piece(body, n as int).len() < TAG_LEN);
        assert(opened_prefix(key, nonce, body, n + 1) is None);
    }
}

/// Seals a plaintext under a password, with the salt and the stream nonce
/// that the caller has drawn, into a container.
///
/// Fails with `Derivation` on a password of more than `u32::MAX` bytes, else
/// with `StreamTooLong` on a plaintext of more than `u32::MAX` full pieces,
/// and on nothing else.
pub fn encrypt_with(
    plaintext: &[u8],
    password: &[u8],
    salt: &mut [u8; 32],
    nonce: &mut [u8; 19],
) -> (res: Result<Vec<u8>, CryptError>)
    ensures
        forall|i: int| 0 <= i < SALT_LEN ==> final(salt)@[i] == 0u8,
        forall|i: int| 0 <= i < NONCE_LEN ==> final(nonce)@[i] == 0u8,
        match res {
            Ok(container) => {
                &&& password@.len() <= 0xffff_ffff
                &&& plaintext@.len() / CHUNK_LEN as nat <= MAX_POSITION
                &&& container@.len() == container_len(plaintext@.len())
                &&& container_salt(container@) == old(salt)@
                &&& container_nonce(container@) == old(nonce)@
                &&& is_container_of(container@, plaintext@, password@)
                &&& open_container(container@, password@) == Ok::<Seq<u8>, CryptError>(
                    plaintext@,
                )
            },
            Err(e) => if password@.len() > 0xffff_ffff {
                e == CryptError::Derivation
            } else {
                &&& plaintext@.len() / CHUNK_LEN as nat > MAX_POSITION
                &&& e == CryptError::StreamTooLong
            },
        },
{
    let mut key = match derive_key(password, salt) {
        Ok(key) => key,
        Err(e) => {
            wipe_array(salt);
            wipe_array(nonce);
            return Err(e);
        },
    };
    let ghost secret = key@;
    let n: usize = plaintext.len() / CHUNK_LEN;
    if n > MAX_POSITION as usize {
        wipe_vec(&mut key);
        wipe_array(salt);
        wipe_array(nonce);
        return Err(CryptError::StreamTooLong);
    }
    let mut stream = StreamEncryptor::new(&mut key, nonce);
    let mut out: Vec<u8> = Vec::new();
    out.extend_from_slice(salt.as_slice());
    out.extend_from_slice(nonce.as_slice());
    assert(container_salt(out@) =~= salt@);
    assert(container_nonce(out@) =~= nonce@);
    wipe_array(salt);
    wipe_array(nonce);
    let mut i: usize = 0;
    while i < n
        invariant
            i <= n,
            n == plaintext@.len() / CHUNK_LEN as nat,
            n * CHUNK_LEN <= plaintext@.len() <= usize::MAX,
            n <= MAX_POSITION,
            stream.key() == secret,
            stream.nonce() == container_nonce(out@),
            stream.position() == i,
            out@.len() == HEADER_LEN + SEALED_CHUNK_LEN * i,
            container_salt(out@) == old(salt)@,
            container_nonce(out@) == old(nonce)@,
            forall|j: int|
                #![trigger sealed_piece(container_body(out@), j)]
                0 <= j < i ==> authentic(
                    secret,
                    old(nonce)@,
                    j as u32,
                    false,
                    plain_piece(plaintext@, j),
                    sealed_piece(container_body(out@), j),
                ),
        decreases n - i,
    {
        let piece = slice_subrange(plaintext, i * CHUNK_LEN, i * CHUNK_LEN + CHUNK_LEN);
        assert(piece@ == plain_piece(plaintext@, i as int));
        let ghost before = out@;
        match stream.encrypt_next(piece) {
            Ok(sealed) => {
                out.extend_from_slice(sealed.as_slice());
                proof {
                    assert(out@ =~= before + sealed@);
                    assert(container_salt(out@) =~= container_salt(before));
                    assert(container_nonce(out@) =~= container_nonce(before));
                    assert(sealed_piece(container_body(out@), i as int) =~= sealed@);
                    assert forall|j: int| 0 <= j < i implies #[trigger] sealed_piece(
                        container_body(out@),
                        j,
                    ) == sealed_piece(container_body(before), j) by {
                        assert(sealed_piece(container_body(out@), j) =~= sealed_piece(
                            container_body(before),
                            j,
                        ));
                    }
                }
            },
            Err(e) => {
                stream.discard();
                return Err(e);
            },
        }
        i = i + 1;
    }
    let rest = slice_subrange(plaintext, n * CHUNK_LEN, plaintext.len());
    assert(rest@ == plain_piece(plaintext@, n as int));
    let ghost before = out@;
    let sealed = stream.encrypt_last(rest);
    out.extend_from_slice(sealed.as_slice());
    proof {
        let body = container_body(out@);
        assert(out@ =~= before + sealed@);
        assert(container_salt(out@) =~= container_salt(before));
        assert(container_nonce(out@) =~= container_nonce(before));
        assert forall|j: int| 0 <= j <= n implies authentic(
            secret,
            old(nonce)@,
            j as u32,
            j == n,
            plain_piece(plaintext@, j),
            #[trigger] sealed_piece(body, j),
        ) by {
            if j < n {
                assert(sealed_piece(body, j) =~= sealed_piece(container_body(before), j));
                assert(plain_piece(plaintext@, j).len() == CHUNK_LEN);
            } else {
                assert(sealed_piece(body, j) =~= sealed@);
            }
        }
        assert(is_sealed_stream(secret, old(nonce)@, plaintext@, body));
        lemma_round_trip(out@, plaintext@, password@);
    }
    Ok(out)
}

/// Seals a plaintext under a password into a container, with a salt and a
/// stream nonce drawn from the operating system.
///
/// Whether the operating system gives the bytes is not known beforehand:
/// where it does not, the error is `Io`. Whatever it gives, a container that
/// comes back holds the plaintext and opens to it.
pub fn encrypt(plaintext: &[u8], password: &[u8]) -> (res: Result<Vec<u8>, CryptError>)
    ensures
        match res {
            Ok(container) => {
                &&& password@.len() <= 0xffff_ffff
                &&& plaintext@.len() / CHUNK_LEN as nat <= MAX_POSITION
                &&& container@.len() == container_len(plaintext@.len())
                &&& is_container_of(container@, plaintext@, password@)
                &&& open_container(container@, password@) == Ok::<Seq<u8>, CryptError>(
                    plaintext@,
                )
            },
            Err(e) => {
                ||| e == CryptError::Io
                ||| e == CryptError::Derivation && password@.len() > 0xffff_ffff
                ||| {
                    &&& e == CryptError::StreamTooLong
                    &&& password@.len() <= 0xffff_ffff
                    &&& plaintext@.len() / CHUNK_LEN as nat > MAX_POSITION
                }
            },
        },
{
    let mut salt: [u8; 32] = match os_random() {
        Ok(salt) => salt,
        Err(_) => {
            return Err(CryptError::Io);
        },
    };
    let mut nonce: [u8; 19] = match os_random() {
        Ok(nonce) => nonce,
        Err(_) => {
            wipe_array(&mut salt);
            return Err(CryptError::Io);
        },
    };
    encrypt_with(plaintext, password, &mut salt, &mut nonce)
}

/// The salt and the stream nonce at the start of a container.
pub struct Header {
    /// The salt of the key derivation.
    pub salt: [u8; 32],
    /// The nonce of the stream.
    pub nonce: [u8; 19],
}

/// Reads the header of a container.
///
/// Fails with `MalformedContainer` exactly on a container that is shorter
/// than a header.
pub fn read_header(container: &[u8]) -> (res: Result<Header, CryptError>)
    ensures
        match res {
            Ok(header) => {
                &&& container@.len() >= HEADER_LEN
                &&& header.salt@ == container_salt(container@)
                &&& header.nonce@ == container_nonce(container@)
            },
            Err(e) => container@.len() < HEADER_LEN && e == CryptError::MalformedContainer,
        },
{
    if container.len() < HEADER_LEN {
        return Err(CryptError::MalformedContainer);
    }
    let salt: [u8; 32] = copy_array(container, 0);
    let nonce: [u8; 19] = copy_array(container, SALT_LEN);
    Ok(Header { salt, nonce })
}

/// Opens a container under a password.
///
/// Fails with `MalformedContainer` on a container shorter than a header;
/// else with `Derivation` on a password of more than `u32::MAX` bytes; else
/// with `StreamTooLong` on more than `u32::MAX` full chunks; else with
/// `Authentication` where a chunk does not verify, the last chunk being what
/// follows the full ones. No plaintext comes back with an error.
pub fn decrypt(container: &[u8], password: &[u8]) -> (res: Result<Vec<u8>, CryptError>)
    ensures
        match res {
            Ok(plaintext) => open_container(container@, password@) == Ok::<Seq<u8>, CryptError>(
                plaintext@,
            ),
            Err(e) => open_container(container@, password@) == Err::<Seq<u8>, CryptError>(e),
        },
{
    let mut header = match read_header(container) {
        Ok(header) => header,
        Err(e) => {
            return Err(e);
        },
    };
    let ghost nonce = header.nonce@;
    let derived = derive_key(password, &header.salt);
    wipe_array(&mut header.salt);
    let mut key = match derived {
        Ok(key) => key,
        Err(e) => {
            wipe_array(&mut header.nonce);
            return Err(e);
        },
    };
    let ghost secret = key@;
    let body = slice_subrange(container, HEADER_LEN, container.len());
    let n: usize = body.len() / SEALED_CHUNK_LEN;
    if n > MAX_POSITION as usize {
        wipe_vec(&mut key);
        wipe_array(&mut header.nonce);
        return Err(CryptError::StreamTooLong);
    }
    let mut stream = StreamDecryptor::new(&mut key, &header.nonce);
    wipe_array(&mut header.nonce);
    let mut out: Vec<u8> = Vec::new();
    let mut i: usize = 0;
    while i < n
        invariant
            i <= n,
            n == body@.len() / SEALED_CHUNK_LEN as nat,
            n * SEALED_CHUNK_LEN <= body@.len() <= usize::MAX,
            n <= MAX_POSITION,
            stream.key() == secret,
            stream.nonce() == nonce,
            stream.position() == i,
            container@.len() >= HEADER_LEN,
            password@.len() <= 0xffff_ffff,
            body@ == container_body(container@),
            nonce == container_nonce(container@),
            secret == derived_key(password@, container_salt(container@)),
            opened_prefix(secret, nonce, body@, i as nat) == Some(out@),
        decreases n - i,
    {
        let chunk = slice_subrange(body, i * SEALED_CHUNK_LEN, i * SEALED_CHUNK_LEN + SEALED_CHUNK_LEN);
        assert(chunk@ == sealed_piece(body@, i as int));
        let ghost before = out@;
        match stream.decrypt_next(chunk) {
            Ok(piece) => {
                out.extend_from_slice(piece.as_slice());
                assert(out@ =~= before + piece@);
            },
            Err(e) => {
                proof {
                    assert(opened_prefix(secret, nonce, body@, (i + 1) as nat) is None);
                    lemma_failure_stays(secret, nonce, body@, (i + 1) as nat, (n + 1) as nat);
                }
                stream.discard();
                return Err(e);
            },
        }
        i = i + 1;
    }
    let rest = slice_subrange(body, n * SEALED_CHUNK_LEN, body.len());
    assert(rest@ == sealed_piece(body@, n as int));
    let ghost before = out@;
    match stream.decrypt_last(rest) {
        Ok(piece) => {
            out.extend_from_slice(piece.as_slice());
            assert(out@ =~= before + piece@);
            Ok(out)
        },
        Err(e) => Err(e),
    }
}

} // verus!
