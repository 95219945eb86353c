use argoncrypt::container::{decrypt, encrypt, encrypt_with, read_header};
use argoncrypt::error::CryptError;
use chacha20poly1305::aead::stream::{DecryptorBE32, EncryptorBE32};
use chacha20poly1305::aead::NewAead;
use chacha20poly1305::XChaCha20Poly1305;

fn pattern(len: usize) -> Vec<u8> {
    (0..len).map(|i| (i * 31 + 7) as u8).collect()
}

fn fixed_salt() -> [u8; 32] {
    let mut salt = [0u8; 32];
    for i in 0..32 {
        salt[i] = 0x10 + i as u8;
    }
    salt
}

fn fixed_nonce() -> [u8; 19] {
    let mut nonce = [0u8; 19];
    for i in 0..19 {
        nonce[i] = 0xc0 + i as u8;
    }
    nonce
}

fn reference_key(password: &[u8], salt: &[u8]) -> Vec<u8> {
    let config = argon2::Config {
        variant: argon2::Variant::Argon2id,
        hash_length: 32,
        lanes: 8,
        mem_cost: 16 * 1024,
        time_cost: 8,
        ..Default::default()
    };
    argon2::hash_raw(password, salt, &config).unwrap()
}

#[test]
fn round_trip_empty() {
    let container = encrypt(b"", b"pw").unwrap();
    assert_eq!(container.len(), 51 + 16);
    assert_eq!(decrypt(&container, b"pw").unwrap(), Vec::<u8>::new());
}

#[test]
fn round_trip_hello_world() {
    let container = encrypt(b"hello world", b"correct-password").unwrap();
    assert_eq!(container.len(), 51 + 11 + 16);
    assert_eq!(decrypt(&container, b"correct-password").unwrap(), b"hello world".to_vec());
}

#[test]
fn round_trip_exactly_one_chunk() {
    let plaintext = pattern(500);
    let container = encrypt(&plaintext, b"pw").unwrap();
    assert_eq!(container.len(), 51 + 516 + 16);
    assert_eq!(decrypt(&container, b"pw").unwrap(), plaintext);
}

#[test]
fn round_trip_one_byte_over_a_chunk() {
    let plaintext = pattern(501);
    let container = encrypt(&plaintext, b"pw").unwrap();
    assert_eq!(container.len(), 51 + 516 + 1 + 16);
    assert_eq!(decrypt(&container, b"pw").unwrap(), plaintext);
}

#[test]
fn round_trip_one_byte_under_a_chunk() {
    let plaintext = pattern(499);
    let container = encrypt(&plaintext, b"pw").unwrap();
    assert_eq!(container.len(), 51 + 499 + 16);
    assert_eq!(decrypt(&container, b"pw").unwrap(), plaintext);
}

#[test]
fn round_trip_many_chunks_and_one_byte() {
    let plaintext = pattern(500 * 7 + 1);
    let container = encrypt(&plaintext, b"a longer password, with spaces").unwrap();
    assert_eq!(container.len(), 51 + 516 * 7 + 1 + 16);
    assert_eq!(decrypt(&container, b"a longer password, with spaces").unwrap(), plaintext);
}

#[test]
fn round_trip_with_the_empty_password() {
    let plaintext = pattern(42);
    let container = encrypt(&plaintext, b"").unwrap();
    assert_eq!(decrypt(&container, b"").unwrap(), plaintext);
}

#[test]
fn exact_multiple_ends_in_an_empty_last_chunk() {
    let plaintext = pattern(1000);
    let mut salt = fixed_salt();
    let mut nonce = fixed_nonce();
    let container = encrypt_with(&plaintext, b"pw", &mut salt, &mut nonce).unwrap();
    assert_eq!(container.len(), 51 + 2 * 516 + 16);

    let key = reference_key(b"pw", &fixed_salt());
    let aead = XChaCha20Poly1305::new(key[..32].as_ref().into());
    let mut reference = DecryptorBE32::from_aead(aead, fixed_nonce().as_ref().into());
    let body = &container[51..];
    assert_eq!(reference.decrypt_next(&body[..516]).unwrap(), plaintext[..500].to_vec());
    assert_eq!(reference.decrypt_next(&body[516..1032]).unwrap(), plaintext[500..].to_vec());
    assert_eq!(reference.decrypt_last(&body[1032..]).unwrap(), Vec::<u8>::new());

    assert_eq!(decrypt(&container, b"pw").unwrap().len(), 1000);
}

#[test]
fn container_is_header_and_be32_stream() {
    let plaintext = pattern(1203);
    let mut salt = fixed_salt();
    let mut nonce = fixed_nonce();
    let container = encrypt_with(&plaintext, b"correct-password", &mut salt, &mut nonce).unwrap();

    let key = reference_key(b"correct-password", &fixed_salt());
    let aead = XChaCha20Poly1305::new(key[..32].as_ref().into());
    let mut reference = EncryptorBE32::from_aead(aead, fixed_nonce().as_ref().into());
    let mut expected = Vec::new();
    expected.extend_from_slice(&fixed_salt());
    expected.extend_from_slice(&fixed_nonce());
    expected.extend_from_slice(&reference.encrypt_next(&plaintext[..500]).unwrap());
    expected.extend_from_slice(&reference.encrypt_next(&plaintext[500..1000]).unwrap());
    expected.extend_from_slice(&reference.encrypt_last(&plaintext[1000..]).unwrap());
    assert_eq!(container, expected);
}

#[test]
fn container_known_answer() {
    let mut salt = fixed_salt();
    let mut nonce = fixed_nonce();
    let container = encrypt_with(b"hello world", b"correct-password", &mut salt, &mut nonce).unwrap();
    let chunk: [u8; 27] = [
        154, 235, 189, 201, 178, 139, 72, 84, 54, 45, 204, 55, 94, 53, 218, 19, 183, 143, 188,
        220, 202, 200, 233, 91, 33, 85, 9,
    ];
    let mut expected = Vec::new();
    expected.extend_from_slice(&fixed_salt());
    expected.extend_from_slice(&fixed_nonce());
    expected.extend_from_slice(&chunk);
    assert_eq!(container, expected);
}

#[test]
fn encrypt_with_is_a_function_of_its_arguments() {
    let plaintext = pattern(600);
    let first = encrypt_with(&plaintext, b"pw", &mut fixed_salt(), &mut fixed_nonce()).unwrap();
    let second = encrypt_with(&plaintext, b"pw", &mut fixed_salt(), &mut fixed_nonce()).unwrap();
    assert_eq!(first, second);
}

#[test]
fn encrypt_with_erases_salt_and_nonce() {
    let mut salt = fixed_salt();
    let mut nonce = fixed_nonce();
    let container = encrypt_with(b"x", b"pw", &mut salt, &mut nonce).unwrap();
    assert_eq!(salt, [0u8; 32]);
    assert_eq!(nonce, [0u8; 19]);
    assert_eq!(&container[..32], &fixed_salt()[..]);
    assert_eq!(&container[32..51], &fixed_nonce()[..]);
}

#[test]
fn two_encryptions_share_nothing() {
    let plaintext = pattern(64);
    let first = encrypt(&plaintext, b"pw").unwrap();
    let second = encrypt(&plaintext, b"pw").unwrap();
    assert_ne!(&first[..32], &second[..32]);
    assert_ne!(&first[32..51], &second[32..51]);
    assert_ne!(&first[51..], &second[51..]);
}

#[test]
fn wrong_password_is_rejected() {
    let container = encrypt(b"hello world", b"correct-password").unwrap();
    assert_eq!(decrypt(&container, b"wrong-password"), Err(CryptError::Authentication));
    assert_eq!(decrypt(&container, b"correct-passwore"), Err(CryptError::Authentication));
    assert_eq!(decrypt(&container, b""), Err(CryptError::Authentication));
}

#[test]
fn wrong_password_is_rejected_after_full_chunks_too() {
    let container = encrypt(&pattern(1500), b"one").unwrap();
    assert_eq!(decrypt(&container, b"two"), Err(CryptError::Authentication));
}

#[test]
fn bit_flip_in_the_salt_is_rejected() {
    let mut container = encrypt(b"hello world", b"pw").unwrap();
    container[0] ^= 0x01;
    assert_eq!(decrypt(&container, b"pw"), Err(CryptError::Authentication));
    container[0] ^= 0x01;
    container[31] ^= 0x80;
    assert_eq!(decrypt(&container, b"pw"), Err(CryptError::Authentication));
}

#[test]
fn bit_flip_in_the_nonce_is_rejected() {
    let mut container = encrypt(b"hello world", b"pw").unwrap();
    container[32] ^= 0x01;
    assert_eq!(decrypt(&container, b"pw"), Err(CryptError::Authentication));
    container[32] ^= 0x01;
    container[50] ^= 0x80;
    assert_eq!(decrypt(&container, b"pw"), Err(CryptError::Authentication));
}

#[test]
fn bit_flip_in_a_chunk_is_rejected() {
    let mut container = encrypt(&pattern(600), b"pw").unwrap();
    // in the ciphertext of the first chunk
    container[51] ^= 0x01;
    assert_eq!(decrypt(&container, b"pw"), Err(CryptError::Authentication));
    container[51] ^= 0x01;
    // in the tag of the first chunk
    container[51 + 515] ^= 0x10;
    assert_eq!(decrypt(&container, b"pw"), Err(CryptError::Authentication));
    container[51 + 515] ^= 0x10;
    // in the tag of the last chunk
    let last = container.len() - 1;
    container[last] ^= 0x80;
    assert_eq!(decrypt(&container, b"pw"), Err(CryptError::Authentication));
}

#[test]
fn swapped_chunks_are_rejected() {
    let container = encrypt(&pattern(1000), b"pw").unwrap();
    let mut swapped = container[..51].to_vec();
    swapped.extend_from_slice(&container[51 + 516..51 + 1032]);
    swapped.extend_from_slice(&container[51..51 + 516]);
    swapped.extend_from_slice(&container[51 + 1032..]);
    assert_eq!(decrypt(&swapped, b"pw"), Err(CryptError::Authentication));
}

#[test]
fn missing_last_chunk_is_rejected() {
    let container = encrypt(&pattern(1000), b"pw").unwrap();
    assert_eq!(container.len(), 51 + 1032 + 16);
    assert_eq!(decrypt(&container[..51 + 1032], b"pw"), Err(CryptError::Authentication));
    assert_eq!(decrypt(&container[..51 + 516], b"pw"), Err(CryptError::Authentication));
}

#[test]
fn missing_trailing_bytes_are_rejected() {
    let container = encrypt(&pattern(520), b"pw").unwrap();
    let len = container.len();
    assert_eq!(decrypt(&container[..len - 1], b"pw"), Err(CryptError::Authentication));
    assert_eq!(decrypt(&container[..len - 16], b"pw"), Err(CryptError::Authentication));
    assert_eq!(decrypt(&container[..len - 30], b"pw"), Err(CryptError::Authentication));
}

#[test]
fn bare_header_is_rejected() {
    let container = encrypt(b"", b"pw").unwrap();
    assert_eq!(decrypt(&container[..51], b"pw"), Err(CryptError::Authentication));
}

#[test]
fn appended_bytes_are_rejected() {
    let mut container = encrypt(b"hello world", b"pw").unwrap();
    container.push(0);
    assert_eq!(decrypt(&container, b"pw"), Err(CryptError::Authentication));
}

#[test]
fn short_container_is_malformed() {
    assert_eq!(decrypt(b"", b"pw"), Err(CryptError::MalformedContainer));
    assert_eq!(decrypt(&[0u8; 31], b"pw"), Err(CryptError::MalformedContainer));
    assert_eq!(decrypt(&[0u8; 32], b"pw"), Err(CryptError::MalformedContainer));
    assert_eq!(decrypt(&[0u8; 50], b"pw"), Err(CryptError::MalformedContainer));
}

#[test]
fn read_header_splits_salt_and_nonce() {
    let mut bytes = Vec::new();
    bytes.extend_from_slice(&fixed_salt());
    bytes.extend_from_slice(&fixed_nonce());
    let header = read_header(&bytes).unwrap();
    assert_eq!(header.salt, fixed_salt());
    assert_eq!(header.nonce, fixed_nonce());
    bytes.extend_from_slice(b"and then chunks");
    let header = read_header(&bytes).unwrap();
    assert_eq!(header.salt, fixed_salt());
    assert_eq!(header.nonce, fixed_nonce());
}

#[test]
fn read_header_refuses_a_short_container() {
    assert!(matches!(read_header(&[1u8; 50]), Err(CryptError::MalformedContainer)));
    assert!(matches!(read_header(&[]), Err(CryptError::MalformedContainer)));
}

#[test]
fn decrypt_opens_a_container_made_chunk_by_chunk() {
    let plaintext = pattern(777);
    let key = reference_key(b"pw", &fixed_salt());
    let aead = XChaCha20Poly1305::new(key[..32].as_ref().into());
    let mut reference = EncryptorBE32::from_aead(aead, fixed_nonce().as_ref().into());
    let mut container = Vec::new();
    container.extend_from_slice(&fixed_salt());
    container.extend_from_slice(&fixed_nonce());
    container.extend_from_slice(&reference.encrypt_next(&plaintext[..500]).unwrap());
    container.extend_from_slice(&reference.encrypt_last(&plaintext[500..]).unwrap());
    assert_eq!(decrypt(&container, b"pw").unwrap(), plaintext);
}
