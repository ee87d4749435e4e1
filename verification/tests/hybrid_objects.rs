use hpke::{Deserializable, Kem, Serializable};
use ring::rand::{SecureRandom, SystemRandom};
use svalin_pki::certificate::Certificate;
use svalin_pki::credential::Credential;
use svalin_pki::encrypt::{EncryptedData, EncryptedObject, EncryptionAlgorithm};
use svalin_pki::hybrid::{
    ed25519_to_x25519_private, ed25519_to_x25519_public, fingerprint_to_hex, HybridEncryptedObject,
    HybridEncryptedObjectError, HybridEncryptionKeyData,
};

fn generate_test_data(size: usize) -> Vec<u8> {
    let rand = SystemRandom::new();
    let mut data = vec![0u8; size];
    rand.fill(&mut data).unwrap();
    data
}

fn create_test_credentials() -> Credential {
    Credential::generate_root().unwrap()
}

fn encrypt<T: serde::Serialize>(
    object: &T,
    receivers: Vec<Certificate>,
) -> Result<HybridEncryptedObject<T>, HybridEncryptedObjectError> {
    HybridEncryptedObject::encrypt_with_receivers(&postcard::to_stdvec(object).unwrap(), receivers)
}

fn decrypt<T: serde::de::DeserializeOwned>(
    object: HybridEncryptedObject<T>,
    credentials: Credential,
) -> Result<T, HybridEncryptedObjectError> {
    let bytes = object.decrypt(credentials)?;
    Ok(postcard::from_bytes(&bytes).unwrap())
}

type Parts = (Vec<u8>, u8, Vec<(String, [u8; 32], Vec<u8>, Vec<u8>)>);

fn to_parts<T>(object: HybridEncryptedObject<T>) -> Parts {
    let (encrypted, entries) = object.into_parts();
    let data = encrypted.encrypted_data();
    let alg = match data.alg() {
        EncryptionAlgorithm::Chacha20Poly1305 => 0,
        EncryptionAlgorithm::Aes256Gcm => 1,
    };
    (
        data.ciphertext().to_vec(),
        alg,
        entries
            .into_iter()
            .map(|(name, d)| (name, d.shared_info_value, d.encrypted_symmetric_key, d.encapsulated_key))
            .collect(),
    )
}

fn from_parts<T>(parts: Parts) -> HybridEncryptedObject<T> {
    let (ciphertext, alg, entries) = parts;
    let alg = if alg == 0 {
        EncryptionAlgorithm::Chacha20Poly1305
    } else {
        EncryptionAlgorithm::Aes256Gcm
    };
    HybridEncryptedObject::from_parts(
        EncryptedObject::from_encrypted_data(EncryptedData::from_parts(ciphertext, alg)),
        entries
            .into_iter()
            .map(|(name, shared_info_value, encrypted_symmetric_key, encapsulated_key)| {
                (
                    name,
                    HybridEncryptionKeyData {
                        shared_info_value,
                        encrypted_symmetric_key,
                        encapsulated_key,
                    },
                )
            })
            .collect(),
    )
}

#[test]
fn test_single_receiver_encrypt_decrypt() {
    let test_data = generate_test_data(1024);
    let receiver_creds = create_test_credentials();
    let receiver_cert = receiver_creds.get_certificate().duplicate();

    let encrypted = encrypt(&test_data, vec![receiver_cert]).unwrap();

    let decrypted: Vec<u8> = decrypt(encrypted, receiver_creds).unwrap();

    assert_eq!(test_data, decrypted);
}

#[test]
fn test_multiple_receivers_encrypt_decrypt() {
    let test_data = generate_test_data(512);

    let receiver1_creds = create_test_credentials();
    let receiver2_creds = create_test_credentials();
    let receiver3_creds = create_test_credentials();

    let receiver1_cert = receiver1_creds.get_certificate().duplicate();
    let receiver2_cert = receiver2_creds.get_certificate().duplicate();
    let receiver3_cert = receiver3_creds.get_certificate().duplicate();

    let encrypted = encrypt(&test_data, vec![receiver1_cert, receiver2_cert, receiver3_cert]).unwrap();

    let decrypted1 = decrypt(encrypted.duplicate(), receiver1_creds).unwrap();
    let decrypted2 = decrypt(encrypted.duplicate(), receiver2_creds).unwrap();
    let decrypted3 = decrypt(encrypted, receiver3_creds).unwrap();

    assert_eq!(test_data, decrypted1);
    assert_eq!(test_data, decrypted2);
    assert_eq!(test_data, decrypted3);
}

#[test]
fn test_empty_data_encrypt_decrypt() {
    let test_data: Vec<u8> = vec![];
    let receiver_creds = create_test_credentials();
    let receiver_cert = receiver_creds.get_certificate().duplicate();

    let encrypted = encrypt(&test_data, vec![receiver_cert]).unwrap();

    let decrypted: Vec<u8> = decrypt(encrypted, receiver_creds).unwrap();
    assert_eq!(test_data, decrypted);
}

#[test]
fn test_large_data_encrypt_decrypt() {
    let test_data = generate_test_data(1024 * 1024);
    let receiver_creds = create_test_credentials();
    let receiver_cert = receiver_creds.get_certificate().duplicate();

    let encrypted = encrypt(&test_data, vec![receiver_cert]).unwrap();

    let decrypted: Vec<u8> = decrypt(encrypted, receiver_creds).unwrap();
    assert_eq!(test_data, decrypted);
}

#[test]
fn test_decrypt_with_wrong_credentials() {
    let test_data = generate_test_data(256);
    let receiver_creds = create_test_credentials();
    let wrong_creds = create_test_credentials();
    let receiver_cert = receiver_creds.get_certificate().duplicate();

    let encrypted = encrypt(&test_data, vec![receiver_cert]).unwrap();

    let result: Result<Vec<u8>, _> = decrypt(encrypted, wrong_creds);
    assert!(matches!(result, Err(HybridEncryptedObjectError::NotIntendedForMe)));
}

#[test]
fn test_encrypt_with_no_receivers() {
    let test_data = generate_test_data(128);

    let encrypted = encrypt(&test_data, vec![]).unwrap();

    assert_eq!(encrypted.receiver_count(), 0);
}

#[test]
fn test_hybrid_encrypted_object_serialization() {
    let test_data = generate_test_data(256);
    let receiver_creds = create_test_credentials();
    let receiver_cert = receiver_creds.get_certificate().duplicate();

    let encrypted = encrypt(&test_data, vec![receiver_cert]).unwrap();

    let serialized = postcard::to_stdvec(&to_parts(encrypted)).unwrap();
    let deserialized: HybridEncryptedObject<Vec<u8>> = from_parts(postcard::from_bytes(&serialized).unwrap());

    let decrypted = decrypt(deserialized, receiver_creds).unwrap();
    assert_eq!(test_data, decrypted);
}

#[test]
fn test_hybrid_encrypted_object_json_serialization() {
    let test_data = generate_test_data(128);
    let receiver_creds = create_test_credentials();
    let receiver_cert = receiver_creds.get_certificate().duplicate();

    let encrypted = encrypt(&test_data, vec![receiver_cert]).unwrap();

    let json = serde_json::to_string(&to_parts(encrypted)).unwrap();
    let deserialized: HybridEncryptedObject<Vec<u8>> = from_parts(serde_json::from_str(&json).unwrap());

    let decrypted = decrypt(deserialized, receiver_creds).unwrap();
    assert_eq!(test_data, decrypted);
}

#[test]
fn test_custom_struct_encrypt_decrypt() {
    let test_struct: (String, u64, Vec<u8>) = ("test_object".to_string(), 42, generate_test_data(64));

    let receiver_creds = create_test_credentials();
    let receiver_cert = receiver_creds.get_certificate().duplicate();

    let encrypted = encrypt(&test_struct, vec![receiver_cert]).unwrap();

    let decrypted = decrypt(encrypted, receiver_creds).unwrap();
    assert_eq!(test_struct, decrypted);
}

#[test]
fn test_duplicate_receivers() {
    let test_data = generate_test_data(256);
    let receiver_creds = create_test_credentials();
    let receiver_cert = receiver_creds.get_certificate().duplicate();

    let encrypted = encrypt(&test_data, vec![receiver_cert.duplicate(), receiver_cert]).unwrap();

    assert_eq!(encrypted.receiver_count(), 1);

    let decrypted = decrypt(encrypted, receiver_creds).unwrap();
    assert_eq!(test_data, decrypted);
}

#[test]
fn test_mixed_receivers_partial_access() {
    let test_data = generate_test_data(256);

    let receiver1_creds = create_test_credentials();
    let receiver2_creds = create_test_credentials();
    let non_receiver_creds = create_test_credentials();

    let receiver1_cert = receiver1_creds.get_certificate().duplicate();
    let receiver2_cert = receiver2_creds.get_certificate().duplicate();

    let encrypted = encrypt(&test_data, vec![receiver1_cert, receiver2_cert]).unwrap();

    let decrypted1 = decrypt(encrypted.duplicate(), receiver1_creds).unwrap();
    let decrypted2 = decrypt(encrypted.duplicate(), receiver2_creds).unwrap();

    let result: Result<Vec<u8>, _> = decrypt(encrypted, non_receiver_creds);

    assert_eq!(test_data, decrypted1);
    assert_eq!(test_data, decrypted2);
    assert!(matches!(result, Err(HybridEncryptedObjectError::NotIntendedForMe)));
}

#[test]
fn private_key_of_another_receiver_fails_to_open() {
    let test_data = generate_test_data(32);
    let receiver = create_test_credentials();
    let other = create_test_credentials();
    let encrypted = encrypt(&test_data, vec![receiver.get_certificate().duplicate()]).unwrap();
    let impostor = Credential::new(other.keypair().duplicate(), receiver.get_certificate().duplicate()).unwrap();
    let result = encrypted.decrypt(impostor);
    assert!(matches!(result, Err(HybridEncryptedObjectError::HpkeError(_))));
}

#[test]
fn malformed_private_key_is_a_conversion_error() {
    let message = ed25519_to_x25519_private(&[0u8; 10]).unwrap_err();
    assert!(message.starts_with("Failed to parse Ed25519 private key: "));
}

#[test]
fn short_public_key_is_refused() {
    assert_eq!(ed25519_to_x25519_public(&[0u8; 31]).unwrap_err(), "Ed25519 public key too short");
}

#[test]
fn invalid_public_key_is_refused() {
    let bad = (0u8..=255)
        .map(|b| {
            let mut key = [0u8; 32];
            key[0] = b;
            key
        })
        .find(|key| ed25519_to_x25519_public(key).is_err())
        .unwrap();
    let message = ed25519_to_x25519_public(&bad).unwrap_err();
    assert!(message.starts_with("Invalid Ed25519 public key: "));
}

#[test]
fn public_key_conversion_uses_last_32_bytes() {
    let creds = create_test_credentials();
    let raw = creds.get_certificate().public_key().to_vec();
    let mut padded = vec![9u8; 12];
    padded.extend_from_slice(&raw);
    let a = ed25519_to_x25519_public(&raw).unwrap();
    let b = ed25519_to_x25519_public(&padded).unwrap();
    assert_eq!(a, b);
    assert_ne!(a.to_vec(), raw);
    let scalar = ed25519_to_x25519_private(creds.keypair().der_bytes()).unwrap();
    let expected = x25519_public(scalar);
    assert_eq!(a, expected);
}

fn x25519_public(scalar: [u8; 32]) -> [u8; 32] {
    let sk = <<hpke::kem::X25519HkdfSha256 as Kem>::PrivateKey as Deserializable>::from_bytes(&scalar).unwrap();
    let pk = <hpke::kem::X25519HkdfSha256 as Kem>::sk_to_pk(&sk);
    let mut out = [0u8; 32];
    out.copy_from_slice(&pk.to_bytes());
    out
}

#[test]
fn receiver_names_are_lower_hex_of_spki_hash() {
    let creds = create_test_credentials();
    let hash = *creds.get_certificate().spki_hash();
    assert_eq!(fingerprint_to_hex(&hash.0), hash.to_hex().to_lowercase());
    let encrypted = encrypt(&vec![7u8], vec![creds.get_certificate().duplicate()]).unwrap();
    let (_, entries) = encrypted.into_parts();
    assert_eq!(entries.len(), 1);
    assert_eq!(entries[0].0, hash.to_hex().to_lowercase());
}

#[test]
fn rebuilt_object_keeps_last_entry_per_name() {
    let test_data = generate_test_data(40);
    let receiver = create_test_credentials();
    let good = encrypt(&test_data, vec![receiver.get_certificate().duplicate()]).unwrap();
    let (encrypted, mut entries) = good.into_parts();
    let name = entries[0].0.clone();
    let bogus = HybridEncryptionKeyData {
        shared_info_value: [0u8; 32],
        encrypted_symmetric_key: vec![1, 2, 3],
        encapsulated_key: vec![4, 5, 6],
    };
    entries.insert(0, (name, bogus));
    let rebuilt: HybridEncryptedObject<Vec<u8>> = HybridEncryptedObject::from_parts(encrypted, entries);
    assert_eq!(rebuilt.receiver_count(), 1);
    assert_eq!(decrypt(rebuilt, receiver).unwrap(), test_data);
}
