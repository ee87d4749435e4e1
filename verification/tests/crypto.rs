use ring::rand::{SecureRandom, SystemRandom};
use svalin_pki::argon::{ArgonCost, ArgonParams, ParamsStringParseError, PasswordHash};
use svalin_pki::encrypt::{
    generate_key, DecryptError, EncryptedData, EncryptedObject, EncryptionAlgorithm, EncryptionKey,
    NonceCounter,
};

#[test]
fn encrypt_decrypt() {
    let rand = SystemRandom::new();
    let mut msg = [0u8; 1024];
    rand.fill(&mut msg).unwrap();

    let key = EncryptionKey::dangerous_from_bytes(generate_key().unwrap());

    let encrypted = EncryptedData::encrypt(&msg, &key).unwrap();
    let msg2 = encrypted.decrypt(&key).unwrap();

    assert_eq!(msg.as_ref(), &msg2);
}

#[test]
fn encryption_uses_first_nonce_with_chacha() {
    let key_bytes = [7u8; 32];
    let key = EncryptionKey::dangerous_from_bytes(key_bytes);
    let encrypted = EncryptedData::encrypt(b"hello", &key).unwrap();
    assert_eq!(encrypted.alg(), EncryptionAlgorithm::Chacha20Poly1305);

    let mut nonce = [0u8; 12];
    nonce[7] = 1;
    let sealing = ring::aead::LessSafeKey::new(
        ring::aead::UnboundKey::new(&ring::aead::CHACHA20_POLY1305, &key_bytes).unwrap(),
    );
    let mut expected = b"hello".to_vec();
    sealing
        .seal_in_place_append_tag(
            ring::aead::Nonce::assume_unique_for_key(nonce),
            ring::aead::Aad::empty(),
            &mut expected,
        )
        .unwrap();
    assert_eq!(encrypted.ciphertext(), expected.as_slice());
    assert_eq!(encrypted.ciphertext().len(), 5 + 16);
}

#[test]
fn aes_round_trip_and_wrong_key() {
    let key = EncryptionKey::dangerous_from_bytes([1u8; 32]);
    let other = EncryptionKey::dangerous_from_bytes([2u8; 32]);
    let encrypted =
        EncryptedData::encrypt_with_alg(b"secret data", &key, EncryptionAlgorithm::Aes256Gcm).unwrap();
    assert_eq!(encrypted.alg(), EncryptionAlgorithm::Aes256Gcm);
    let copy = encrypted.duplicate();
    assert!(matches!(copy.decrypt(&other), Err(DecryptError::UnsealError(_))));
    assert_eq!(encrypted.decrypt(&key).unwrap(), b"secret data".to_vec());
}

#[test]
fn tampered_ciphertext_is_refused() {
    let key = EncryptionKey::dangerous_from_bytes([3u8; 32]);
    let encrypted = EncryptedData::encrypt(b"payload", &key).unwrap();
    let mut bytes = encrypted.ciphertext().to_vec();
    bytes[0] ^= 1;
    let tampered = EncryptedData::from_parts(bytes, encrypted.alg());
    assert!(tampered.decrypt(&key).is_err());
}

#[test]
fn encrypted_object_round_trip() {
    let key = EncryptionKey::dangerous_from_bytes(generate_key().unwrap());
    let serialized = postcard::to_stdvec(&(5u32, "five".to_string())).unwrap();
    let object: EncryptedObject<(u32, String)> = EncryptedObject::encrypt_serialized(&serialized, &key).unwrap();
    let rebuilt: EncryptedObject<(u32, String)> =
        EncryptedObject::from_encrypted_data(object.encrypted_data().duplicate());
    let plain = rebuilt.decrypt_serialized(&key).unwrap();
    let value: (u32, String) = postcard::from_bytes(&plain).unwrap();
    assert_eq!(value, (5, "five".to_string()));
}

#[test]
fn nonces_count_up_big_endian() {
    let mut counter = NonceCounter::new();
    assert_eq!(counter.advance(), [0, 0, 0, 0, 0, 0, 0, 1, 0, 0, 0, 0]);
    assert_eq!(counter.advance(), [0, 0, 0, 0, 0, 0, 0, 2, 0, 0, 0, 0]);
    for _ in 0..253 {
        counter.advance();
    }
    assert_eq!(counter.advance(), [0, 0, 0, 0, 0, 0, 1, 0, 0, 0, 0, 0]);
}

#[test]
fn generated_keys_differ() {
    assert_ne!(generate_key().unwrap(), generate_key().unwrap());
}

#[test]
fn argon_test_hash() {
    let password = "testpass".as_bytes().to_owned();

    let params = ArgonParams::basic();
    let hashed = params.derive_password_hash(password.clone()).unwrap();

    assert!(hashed.verify(password).unwrap());
}

#[test]
fn wrong_password_does_not_verify() {
    let hashed = ArgonParams::basic().derive_password_hash(b"right".to_vec()).unwrap();
    assert!(!hashed.verify(b"wrong".to_vec()).unwrap());
}

#[test]
fn argon_matches_reference_hash() {
    let cost = ArgonCost::new(64, 1, 1);
    let params = ArgonParams::from_parts(cost, b"saltsalt".to_vec());
    let key = params.derive_key(b"password".to_vec()).unwrap();
    let argon = argon2::Argon2::new(
        argon2::Algorithm::Argon2id,
        argon2::Version::V0x10,
        argon2::Params::new(64, 1, 1, None).unwrap(),
    );
    let mut expected = [0u8; 32];
    argon.hash_password_into(b"password", b"saltsalt", &mut expected).unwrap();
    assert_eq!(key, expected);
    let hash = PasswordHash::from_parts(ArgonParams::from_parts(cost, b"saltsalt".to_vec()), expected);
    assert!(hash.verify(b"password".to_vec()).unwrap());
}

#[test]
fn short_salt_is_refused() {
    let params = ArgonParams::from_parts(ArgonCost::new(64, 1, 1), b"short".to_vec());
    assert!(params.derive_key(b"password".to_vec()).is_err());
}

#[test]
fn fake_salt_is_digest_of_seed() {
    let params = ArgonParams::basic_with_fake_salt(b"seed");
    let expected = ring::digest::digest(&ring::digest::SHA512_256, b"seed");
    assert_eq!(params.get_salt(), expected.as_ref());
    assert_eq!(params.get_cost(), ArgonCost::basic());
    let strong = ArgonParams::strong_with_fake_salt(b"seed");
    assert_eq!(strong.get_salt(), expected.as_ref());
    assert_eq!(strong.get_cost(), ArgonCost::strong());
    assert_eq!(ArgonParams::strong().get_salt().len(), 32);
    assert_ne!(ArgonParams::basic().get_salt(), ArgonParams::basic().get_salt());
}

#[test]
fn presets() {
    let strong = ArgonCost::strong();
    assert_eq!((strong.m_cost(), strong.t_cost(), strong.p_cost()), (128 * 1024, 2, 8));
    let basic = ArgonCost::basic();
    assert_eq!((basic.m_cost(), basic.t_cost(), basic.p_cost()), (32 * 1024, 2, 4));
}

#[test]
fn cost_from_params_string() {
    let cost = ArgonCost::try_from_params_string("m=4096,t=3,p=1").unwrap();
    assert_eq!((cost.m_cost(), cost.t_cost(), cost.p_cost()), (4096, 3, 1));
    assert!(matches!(
        ArgonCost::try_from_params_string("t=3,p=1"),
        Err(ParamsStringParseError::MCostUnavailable)
    ));
    assert!(matches!(
        ArgonCost::try_from_params_string("m=4096,p=1"),
        Err(ParamsStringParseError::TCostUnavailable)
    ));
    assert!(matches!(
        ArgonCost::try_from_params_string("m=4096,t=3"),
        Err(ParamsStringParseError::PCostUnavailable)
    ));
}
