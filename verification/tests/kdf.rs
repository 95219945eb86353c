use argoncrypt::error::CryptError;
use argoncrypt::kdf::{argon2_config, derive_key, KdfVariant};

#[test]
fn argon2_config_is_the_fixed_one() {
    let config = argon2_config();
    assert_eq!(config.variant, KdfVariant::Argon2id);
    assert_eq!(config.hash_length, 32);
    assert_eq!(config.lanes, 8);
    assert_eq!(config.mem_cost, 16384);
    assert_eq!(config.time_cost, 8);
}

#[test]
fn derive_key_is_argon2id_under_the_fixed_parameters() {
    let salt = [7u8; 32];
    let key = derive_key(b"correct-password", &salt).unwrap();
    let config = argon2::Config {
        variant: argon2::Variant::Argon2id,
        hash_length: 32,
        lanes: 8,
        mem_cost: 16 * 1024,
        time_cost: 8,
        ..Default::default()
    };
    let expected = argon2::hash_raw(b"correct-password", &salt, &config).unwrap();
    assert_eq!(key, expected);
    assert_eq!(key.len(), 32);
}

#[test]
fn derive_key_known_answer() {
    let mut salt = [0u8; 32];
    for i in 0..32 {
        salt[i] = i as u8;
    }
    let key = derive_key(b"correct-password", &salt).unwrap();
    let expected: [u8; 32] = [
        151, 112, 2, 103, 100, 78, 172, 128, 158, 6, 125, 105, 96, 33, 74, 76, 164, 183, 39, 32,
        150, 198, 8, 68, 105, 129, 14, 195, 148, 91, 223, 212,
    ];
    assert_eq!(key, expected.to_vec());
}

#[test]
fn derive_key_is_a_function_of_password_and_salt() {
    let salt = [1u8; 32];
    let other_salt = [2u8; 32];
    let key = derive_key(b"password", &salt).unwrap();
    assert_eq!(derive_key(b"password", &salt).unwrap(), key);
    assert_ne!(derive_key(b"password", &other_salt).unwrap(), key);
    assert_ne!(derive_key(b"passwore", &salt).unwrap(), key);
}

#[test]
fn derive_key_takes_the_empty_password() {
    let salt = [9u8; 32];
    let res: Result<Vec<u8>, CryptError> = derive_key(b"", &salt);
    assert_eq!(res.unwrap().len(), 32);
}

#[test]
fn derive_key_takes_a_long_password() {
    let password = vec![0x61u8; 100_000];
    let salt = [9u8; 32];
    assert_eq!(derive_key(&password, &salt).unwrap().len(), 32);
}
