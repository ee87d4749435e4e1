use std::time::{SystemTime, UNIX_EPOCH};

use rcgen::PublicKeyData;
use svalin_pki::certificate::CertificateParseError;
use svalin_pki::certificate_type::CertificateType;
use svalin_pki::credential::ApproveRequestError;
use svalin_pki::credential::{
    agent_certificate_spec, ed25519_spki_of, root_certificate_spec, CertificateRequest, Credential,
    DecodeCredentialsError,
    KeyUsage,
};
use svalin_pki::encrypt::{generate_key, EncryptionKey};
use svalin_pki::keypair::{
    decode_saved_keypair, encode_saved_keypair, DecodeKeypairError, KeyPair, KeyReadError,
    SavedKeypairError,
};
use svalin_pki::keys::Algorithm;
use svalin_pki::mls::rules::{check_key_package_certificate, check_signature_key, KeyPackageMismatch};
use svalin_pki::spki_hash::SpkiHash;
use svalin_pki::trust_store::{State, Transaction};

fn now() -> u64 {
    SystemTime::now().duration_since(UNIX_EPOCH).unwrap().as_secs()
}

#[test]
fn generated_key_pair_is_ed25519() {
    let keypair = KeyPair::generate().unwrap();
    let exported = keypair.export_public_key();
    assert_eq!(exported.algorithm(), Algorithm::PkcsEd25519);
    assert_eq!(exported.der_bytes().len(), 32);
    let rcgen_key = rcgen::KeyPair::try_from(keypair.der_bytes()).unwrap();
    assert_eq!(exported.der_bytes(), rcgen_key.public_key_raw());
    assert_eq!(keypair.subject_public_key_info(), rcgen_key.subject_public_key_info().as_slice());
    assert_eq!(ed25519_spki_of(exported.der_bytes()), rcgen_key.subject_public_key_info());
}

#[test]
fn spki_encoding_of_long_keys() {
    let raw = vec![7u8; 300];
    let spki = ed25519_spki_of(&raw);
    assert_eq!(&spki[..4], &[0x30, 0x82, 0x01, 0x38]);
    assert_eq!(&spki[4..11], &[0x30, 0x05, 0x06, 0x03, 0x2b, 0x65, 0x70]);
    assert_eq!(&spki[11..16], &[0x03, 0x82, 0x01, 0x2d, 0x00]);
    assert_eq!(&spki[16..], raw.as_slice());
}

#[test]
fn key_pair_reading() {
    assert!(matches!(KeyPair::from_der(vec![1, 2, 3]), Err(KeyReadError::UnknownEncoding)));
    let keypair = KeyPair::generate().unwrap();
    let copy = KeyPair::from_der(keypair.der_bytes().to_vec()).unwrap();
    assert_eq!(copy.der_bytes(), keypair.der_bytes());
    assert_eq!(copy.subject_public_key_info(), keypair.subject_public_key_info());
}

#[test]
fn test_encode_decode() {
    let credentials = KeyPair::generate().unwrap();
    let key = EncryptionKey::dangerous_from_bytes(generate_key().unwrap());

    let encrypted = credentials.encrypt(&key).unwrap();
    let credentials2 = KeyPair::decrypt(encrypted, &key).unwrap();
    assert_eq!(credentials2.der_bytes(), credentials.der_bytes());
}

#[test]
fn key_pair_needs_its_key() {
    let keypair = KeyPair::generate().unwrap();
    let key = EncryptionKey::dangerous_from_bytes([1u8; 32]);
    let other = EncryptionKey::dangerous_from_bytes([2u8; 32]);
    let encrypted = keypair.encrypt(&key).unwrap();
    assert!(matches!(KeyPair::decrypt(encrypted, &other), Err(DecodeKeypairError::DecryptError(_))));
}

#[test]
fn saved_form_is_postcard_framing() {
    let der: Vec<u8> = (0..200u8).collect();
    let encoded = encode_saved_keypair(&der).unwrap();
    assert_eq!(encoded, postcard::to_stdvec(&(der.clone(), 0u8)).unwrap());
    assert_eq!(&encoded[..2], &[0xc8, 0x01]);
    assert_eq!(encoded.len(), 2 + 200 + 1);
    assert_eq!(decode_saved_keypair(&encoded).unwrap(), der);
    let (decoded, tag): (Vec<u8>, u32) = postcard::from_bytes(&encoded).unwrap();
    assert_eq!((decoded, tag), (der, 0));
}

#[test]
fn saved_form_errors() {
    assert!(matches!(decode_saved_keypair(&[]), Err(SavedKeypairError::Postcard(_))));
    assert!(matches!(decode_saved_keypair(&[3, 1, 2]), Err(SavedKeypairError::Postcard(_))));
    assert!(matches!(decode_saved_keypair(&[2, 1, 2]), Err(SavedKeypairError::Postcard(_))));
    assert!(matches!(decode_saved_keypair(&[2, 1, 2, 1]), Err(SavedKeypairError::UnknownAlgorithm)));
    assert_eq!(decode_saved_keypair(&[2, 1, 2, 0, 9, 9]).unwrap(), vec![1, 2]);
    assert!(matches!(decode_saved_keypair(&[0xff; 10]), Err(SavedKeypairError::Postcard(_))));
}

#[test]
fn certificate_descriptions() {
    let spki = b"an spki".to_vec();
    let hex = SpkiHash::compute(&spki).to_hex();
    let root = root_certificate_spec(&spki, 1000);
    assert_eq!(root.common_name, hex);
    assert_eq!(root.unit, "root");
    assert_eq!((root.not_before, root.not_after), (1000, 1000 + 3650 * 86400));
    assert!(root.is_ca);
    assert_eq!(root.key_usages, vec![KeyUsage::DigitalSignature, KeyUsage::KeyCertSign]);
    assert!(!root.authority_key_identifier);
    let agent = agent_certificate_spec(&spki, 1000);
    assert_eq!(agent.common_name, hex);
    assert_eq!(agent.unit, "agent");
    assert_eq!((agent.not_before, agent.not_after), (1000, 1000 + 365 * 86400));
    assert!(!agent.is_ca);
    assert_eq!(agent.key_usages, vec![KeyUsage::DigitalSignature]);
    assert!(agent.authority_key_identifier);
    assert_eq!(root_certificate_spec(&spki, i64::MAX - 5).not_after, i64::MAX);
}

#[test]
fn root_credential_is_a_root() {
    let root = Credential::generate_root().unwrap();
    let cert = root.get_certificate();
    assert_eq!(cert.certificate_type(), CertificateType::Root);
    assert!(cert.is_ca());
    assert_eq!(*cert.spki_hash(), SpkiHash::compute(root.keypair().subject_public_key_info()));
    assert_eq!(cert.public_key(), root.keypair().export_public_key().der_bytes());
    assert_eq!(*cert.issuer(), *cert.spki_hash());
    assert!(cert.check_validity_at(now()).is_ok());
    let span = cert.as_unverified().not_after() - cert.as_unverified().not_before();
    assert_eq!(span, 10 * 365 * 24 * 60 * 60);
}

#[test]
fn root_issues_agent_certificates() {
    let root = Credential::generate_root().unwrap();
    let device = KeyPair::generate().unwrap();
    let leaf = root.create_leaf_certificate_for_key(&device.export_public_key()).unwrap();
    assert_eq!(leaf.certificate_type(), CertificateType::Agent);
    assert!(!leaf.is_ca());
    assert_eq!(*leaf.spki_hash(), SpkiHash::compute(device.subject_public_key_info()));
    assert_eq!(leaf.public_key(), device.export_public_key().der_bytes());
    let span = leaf.as_unverified().not_after() - leaf.as_unverified().not_before();
    assert_eq!(span, 365 * 24 * 60 * 60);
    assert_eq!(*leaf.issuer(), *root.get_certificate().spki_hash());
    let verified = leaf
        .duplicate()
        .to_unverified()
        .verify_signature(root.get_certificate(), now())
        .unwrap();
    assert_eq!(verified.as_der(), leaf.as_der());

    let mut state = State::initialize(root.get_certificate().duplicate().to_unverified().use_as_root().unwrap());
    let signer = *root.get_certificate().spki_hash();
    let tx = Transaction::Add(leaf.to_unverified());
    assert!(state.check(&signer, now(), &tx).is_ok());
    state.apply(&signer, now(), &tx);
}

#[test]
fn agents_cannot_issue() {
    let root = Credential::generate_root().unwrap();
    let device = KeyPair::generate().unwrap();
    let leaf = root.create_leaf_certificate_for_key(&device.export_public_key()).unwrap();
    let agent = Credential::new(device, leaf).unwrap();
    let other = KeyPair::generate().unwrap();
    if let Ok(issued) = agent.create_leaf_certificate_for_key(&other.export_public_key()) {
        let result = issued.to_unverified().verify_signature(agent.get_certificate(), now());
        assert!(result.is_err());
    }
}

#[test]
fn certificate_requests() {
    let key = rcgen::KeyPair::generate_for(&rcgen::PKCS_ED25519).unwrap();
    let params = rcgen::CertificateParams::new(vec!["device".to_string()]).unwrap();
    let pem = params.serialize_request(&key).unwrap().pem().unwrap();
    assert!(CertificateRequest::from_string(pem).is_ok());
    assert!(CertificateRequest::from_string("not a request".to_string()).is_err());
}

#[test]
fn key_package_fit_checks() {
    let root = Credential::generate_root().unwrap();
    let other = Credential::generate_root().unwrap();
    let cert = root.get_certificate().duplicate().to_unverified();
    assert_eq!(check_signature_key(cert.public_key(), &cert), Ok(()));
    assert_eq!(
        check_signature_key(other.get_certificate().public_key(), &cert),
        Err(KeyPackageMismatch::SignatureKeyMismatch)
    );
    assert_eq!(check_key_package_certificate(&cert, root.get_certificate()), Ok(()));
    assert_eq!(
        check_key_package_certificate(&cert, other.get_certificate()),
        Err(KeyPackageMismatch::CertificateMismatch)
    );
}

#[test]
fn certificates_compare_by_der() {
    let root = Credential::generate_root().unwrap();
    let other = Credential::generate_root().unwrap();
    let a = root.get_certificate().duplicate();
    let b = a.duplicate().to_unverified();
    assert!(b == a);
    assert!(a == b);
    assert!(a == *root.get_certificate());
    assert!(*other.get_certificate() != a);
    let r = b.duplicate().use_as_root().unwrap();
    assert!(r == a);
    assert!(a == r);
    assert!(b == r);
    assert!(r == b);
}

#[test]
fn approved_request_keeps_requested_validity() {
    let root = Credential::generate_root().unwrap();
    let key = rcgen::KeyPair::generate_for(&rcgen::PKCS_ED25519).unwrap();
    let mut params = rcgen::CertificateParams::default();
    let mut dn = rcgen::DistinguishedName::new();
    dn.push(rcgen::DnType::CommonName, SpkiHash::compute(&key.subject_public_key_info()).to_hex());
    dn.push(rcgen::DnType::OrganizationalUnitName, "agent");
    params.distinguished_name = dn;
    let pem = params.serialize_request(&key).unwrap().pem().unwrap();
    let request = CertificateRequest::from_string(pem).unwrap();
    // a request carries no validity period, so the signed certificate does
    // not have the agent's and is refused when read back
    let result = root.approve_request(request);
    assert!(matches!(
        result,
        Err(ApproveRequestError::ParseNewCertError(CertificateParseError::IncorrectValidityDuration(..)))
    ));
}

#[test]
fn key_pair_upgrades_to_credential() {
    let root = Credential::generate_root().unwrap();
    let keypair = root.keypair().duplicate();
    let again = keypair.upgrade(root.get_certificate().duplicate()).unwrap();
    assert_eq!(again.get_der_key_bytes(), root.get_der_key_bytes());
    assert!(*again.get_certificate() == *root.get_certificate());
}

#[test]
fn exported_credentials_come_back() {
    let root = Credential::generate_root().unwrap();
    let key = EncryptionKey::dangerous_from_bytes(generate_key().unwrap());
    let saved = root.export(&key).unwrap();
    assert_eq!(saved.raw_cert.as_slice(), root.get_certificate().as_der());
    let restored = saved.decrypt(&key).unwrap();
    assert_eq!(restored.get_der_key_bytes(), root.get_der_key_bytes());
    assert_eq!(restored.get_certificate().as_der(), root.get_certificate().as_der());

    let other = EncryptionKey::dangerous_from_bytes(generate_key().unwrap());
    let result = root.export(&key).unwrap().decrypt(&other);
    assert!(matches!(result, Err(DecodeCredentialsError::DecodeKeypairError(_))));

    let mut broken = root.export(&key).unwrap();
    broken.raw_cert = vec![1, 2, 3];
    assert!(matches!(broken.decrypt(&key), Err(DecodeCredentialsError::ParseCertificateError(_))));
}
