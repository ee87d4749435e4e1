use std::time::{SystemTime, UNIX_EPOCH};

use rcgen::{
    BasicConstraints, CertificateParams, DistinguishedName, DnType, IsCa, Issuer, KeyPair,
    PublicKeyData,
};
use svalin_pki::certificate::{
    CertificateParseError, SignatureVerificationError, UnverifiedCertificate, ValidityError,
};
use svalin_pki::certificate_chain::{AddCertificateError, CertificateChainBuilder, VerifyChainError};
use svalin_pki::certificate_type::CertificateType;
use svalin_pki::spki_hash::SpkiHash;

const DAY: i64 = 86400;

struct Party {
    key: KeyPair,
    params: CertificateParams,
    der: Vec<u8>,
}

fn now() -> i64 {
    SystemTime::now().duration_since(UNIX_EPOCH).unwrap().as_secs() as i64
}

fn new_key() -> KeyPair {
    KeyPair::generate_for(&rcgen::PKCS_ED25519).unwrap()
}

fn spki_hex(key: &KeyPair) -> String {
    SpkiHash::compute(&key.subject_public_key_info()).to_hex()
}

fn params_for(common_name: &str, unit: Option<&str>, start: i64, secs: i64, ca: bool) -> CertificateParams {
    let mut params = CertificateParams::default();
    params.not_before = time::OffsetDateTime::from_unix_timestamp(start).unwrap();
    params.not_after = time::OffsetDateTime::from_unix_timestamp(start + secs).unwrap();
    params.is_ca = if ca {
        IsCa::Ca(BasicConstraints::Unconstrained)
    } else {
        IsCa::NoCa
    };
    let mut dn = DistinguishedName::new();
    dn.push(DnType::CommonName, common_name);
    if let Some(unit) = unit {
        dn.push(DnType::OrganizationalUnitName, unit);
    }
    params.distinguished_name = dn;
    params
}

fn self_signed_at(kind: &str, start: i64, secs: i64, ca: bool) -> Party {
    let key = new_key();
    let params = params_for(&spki_hex(&key), Some(kind), start, secs, ca);
    let der = params.self_signed(&key).unwrap().der().to_vec();
    Party { key, params, der }
}

fn self_signed(kind: &str, secs: i64, ca: bool) -> Party {
    self_signed_at(kind, now(), secs, ca)
}

fn issued_at(issuer: &Party, kind: &str, start: i64, secs: i64, ca: bool) -> Party {
    let key = new_key();
    let params = params_for(&spki_hex(&key), Some(kind), start, secs, ca);
    let der = params
        .signed_by(&key, &Issuer::from_params(&issuer.params, &issuer.key))
        .unwrap()
        .der()
        .to_vec();
    Party { key, params, der }
}

fn issued(issuer: &Party, kind: &str, secs: i64, ca: bool) -> Party {
    issued_at(issuer, kind, now(), secs, ca)
}

fn root() -> Party {
    self_signed("root", 3650 * DAY, true)
}

fn parse(party: &Party) -> UnverifiedCertificate {
    UnverifiedCertificate::from_der(party.der.clone()).unwrap()
}

#[test]
fn root_certificate_follows_conventions() {
    let party = root();
    let cert = parse(&party);
    let expected = SpkiHash::compute(&party.key.subject_public_key_info());
    assert_eq!(cert.certificate_type(), CertificateType::Root);
    assert!(cert.is_ca());
    assert_eq!(*cert.spki_hash(), expected);
    assert_eq!(*cert.issuer(), expected);
    assert_eq!(cert.not_after() - cert.not_before(), 3650 * DAY);
    assert_eq!(cert.as_der(), party.der.as_slice());
    assert_eq!(cert.public_key(), party.key.public_key_raw());
}

#[test]
fn every_type_with_its_own_validity_parses() {
    let root = root();
    let user = issued(&root, "user", 365 * DAY, true);
    let device = issued(&user, "user_device", 30 * DAY, false);
    let agent = issued(&root, "agent", 365 * DAY, false);
    let server = issued(&root, "server", 3650 * DAY, false);
    let temporary = self_signed("temporary", 60, false);
    assert_eq!(parse(&user).certificate_type(), CertificateType::User);
    assert_eq!(parse(&device).certificate_type(), CertificateType::UserDevice);
    assert_eq!(parse(&agent).certificate_type(), CertificateType::Agent);
    assert_eq!(parse(&server).certificate_type(), CertificateType::Server);
    assert_eq!(parse(&temporary).certificate_type(), CertificateType::Temporary);
    assert_eq!(*parse(&device).issuer(), *parse(&user).spki_hash());
}

#[test]
fn garbage_is_not_a_certificate() {
    let result = UnverifiedCertificate::from_der(vec![1, 2, 3, 4]);
    assert!(matches!(result, Err(CertificateParseError::X509ParserError(_))));
}

#[test]
fn missing_unit_is_rejected() {
    let key = new_key();
    let params = params_for(&spki_hex(&key), None, now(), 3650 * DAY, true);
    let der = params.self_signed(&key).unwrap().der().to_vec();
    let result = UnverifiedCertificate::from_der(der);
    assert!(matches!(result, Err(CertificateParseError::MissingOrganizationalUnit)));
}

#[test]
fn unknown_unit_is_rejected() {
    let key = new_key();
    let params = params_for(&spki_hex(&key), Some("admin"), now(), 3650 * DAY, true);
    let der = params.self_signed(&key).unwrap().der().to_vec();
    let result = UnverifiedCertificate::from_der(der);
    assert!(matches!(result, Err(CertificateParseError::InvalidCertificateType(_))));
}

#[test]
fn common_name_must_be_spki_hash() {
    let key = new_key();
    let other = new_key();
    let params = params_for(&spki_hex(&other), Some("root"), now(), 3650 * DAY, true);
    let der = params.self_signed(&key).unwrap().der().to_vec();
    let result = UnverifiedCertificate::from_der(der);
    assert!(matches!(result, Err(CertificateParseError::SpkiHashMismatch)));
}

#[test]
fn lower_case_common_name_is_rejected() {
    let key = new_key();
    let params = params_for(&spki_hex(&key).to_lowercase(), Some("root"), now(), 3650 * DAY, true);
    let der = params.self_signed(&key).unwrap().der().to_vec();
    let result = UnverifiedCertificate::from_der(der);
    assert!(matches!(result, Err(CertificateParseError::SpkiHashMismatch)));
}

#[test]
fn validity_must_match_type() {
    let party = self_signed("root", 365 * DAY, true);
    let result = UnverifiedCertificate::from_der(party.der.clone());
    match result {
        Err(CertificateParseError::IncorrectValidityDuration(t, expected, got)) => {
            assert_eq!(t, CertificateType::Root);
            assert_eq!(expected, (3650 * DAY, 0));
            assert_eq!(got, (365 * DAY, 0));
        }
        other => panic!("unexpected result {:?}", other),
    }
}

#[test]
fn self_signed_user_is_rejected() {
    let party = self_signed("user", 365 * DAY, true);
    let result = UnverifiedCertificate::from_der(party.der.clone());
    assert!(matches!(result, Err(CertificateParseError::SelfSignedNotRootOrTemp)));
}

#[test]
fn ca_flag_must_match_type() {
    let root_without_ca = self_signed("root", 3650 * DAY, false);
    let result = UnverifiedCertificate::from_der(root_without_ca.der.clone());
    assert!(matches!(result, Err(CertificateParseError::ShouldBeCa(CertificateType::Root))));

    let root = root();
    let agent_with_ca = issued(&root, "agent", 365 * DAY, true);
    let result = UnverifiedCertificate::from_der(agent_with_ca.der.clone());
    assert!(matches!(result, Err(CertificateParseError::ShouldNotBeCa(CertificateType::Agent))));
}

#[test]
fn only_roots_become_roots() {
    let root = root();
    let agent = issued(&root, "agent", 365 * DAY, false);
    assert!(parse(&root).use_as_root().is_ok());
    assert!(parse(&agent).use_as_root().is_err());
    assert!(parse(&agent).use_as_temporary().is_none());
    let temporary = self_signed("temporary", 60, false);
    assert!(parse(&temporary).use_as_temporary().is_some());
}

#[test]
fn validity_period_bounds() {
    let party = root();
    let cert = parse(&party);
    let start = cert.not_before() as u64;
    let end = cert.not_after() as u64;
    assert_eq!(cert.check_validity_at(start - 1), Err(ValidityError::NotYetValid));
    assert_eq!(cert.check_validity_at(start), Ok(()));
    assert_eq!(cert.check_validity_at(end), Ok(()));
    assert_eq!(cert.check_validity_at(end + 1), Err(ValidityError::Expired));
}

#[test]
fn signature_is_checked_against_issuer() {
    let root = root();
    let agent = issued(&root, "agent", 365 * DAY, false);
    let root_cert = parse(&root).mark_as_trusted();
    let time = now() as u64;
    let verified = parse(&agent).verify_signature(&root_cert, time).unwrap();
    assert_eq!(verified.as_der(), agent.der.as_slice());

    let other_root = self::root();
    let other_cert = parse(&other_root).mark_as_trusted();
    let result = parse(&agent).verify_signature(&other_cert, time);
    assert!(matches!(result, Err(SignatureVerificationError::X509VerificationError(_))));

    let result = parse(&agent).verify_signature(&root_cert, time + 400 * DAY as u64);
    assert!(matches!(
        result,
        Err(SignatureVerificationError::ValidityError(ValidityError::Expired))
    ));
}

#[test]
fn signature_check_with_checkable_validity() {
    let root = root();
    let agent = issued(&root, "agent", 365 * DAY, false);
    let root_cert = parse(&root).mark_as_trusted();
    let time = now() as u64;
    let verified = parse(&agent).try_verify_signature(&root_cert, time).unwrap().unwrap();
    assert_eq!(verified.as_der(), agent.der.as_slice());
    let other_cert = parse(&self::root()).mark_as_trusted();
    let result = parse(&agent).try_verify_signature(&other_cert, time).unwrap();
    assert!(matches!(result, Err(SignatureVerificationError::X509VerificationError(_))));
}

#[test]
fn issuer_type_must_allow_child() {
    let root = root();
    let agent = issued(&root, "agent", 365 * DAY, false);
    let server = issued(&agent, "server", 3650 * DAY, false);
    let agent_cert = parse(&agent).mark_as_trusted();
    let result = parse(&server).verify_signature(&agent_cert, now() as u64);
    assert!(matches!(
        result,
        Err(SignatureVerificationError::InvalidCertificateType(
            CertificateType::Agent,
            CertificateType::Server
        ))
    ));
}

#[test]
fn chain_from_device_to_root_verifies() {
    let root = root();
    let user = issued(&root, "user", 365 * DAY, true);
    let device = issued(&user, "user_device", 30 * DAY, false);

    let mut builder = CertificateChainBuilder::new(parse(&device));
    assert_eq!(*builder.requested_issuer().unwrap(), *parse(&user).spki_hash());
    assert!(!builder.is_finished());
    builder.push_parent(parse(&user)).unwrap();
    assert_eq!(*builder.requested_issuer().unwrap(), *parse(&root).spki_hash());
    builder.push_parent(parse(&root)).unwrap();
    assert!(builder.is_finished());
    assert!(builder.requested_issuer().is_none());

    let chain = builder.finish().unwrap();
    let root_cert = parse(&root).use_as_root().unwrap();
    let verified = chain.verify(&root_cert, now() as u64).unwrap();
    assert_eq!(verified.take_leaf().as_der(), device.der.as_slice());
}

#[test]
fn chain_rejects_wrong_parent_and_extra_parent() {
    let root = root();
    let agent = issued(&root, "agent", 365 * DAY, false);
    let stranger = self::root();

    let mut builder = CertificateChainBuilder::new(parse(&agent));
    match builder.push_parent(parse(&stranger)) {
        Err(AddCertificateError::WrongParent(current, offered)) => {
            assert_eq!(current, parse(&agent).issuer().to_hex());
            assert_eq!(current, parse(&root).spki_hash().to_hex());
            assert_eq!(offered, parse(&stranger).spki_hash().to_hex());
        }
        other => panic!("unexpected result {:?}", other),
    }
    assert!(builder.finish().is_err());

    let mut builder = CertificateChainBuilder::new(parse(&agent));
    builder.push_parent(parse(&root)).unwrap();
    let result = builder.push_parent(parse(&root));
    assert!(matches!(result, Err(AddCertificateError::AlreadyFinished)));
}

#[test]
fn chain_rejects_other_root() {
    let root = root();
    let agent = issued(&root, "agent", 365 * DAY, false);
    let other = self::root();

    let mut builder = CertificateChainBuilder::new(parse(&agent));
    builder.push_parent(parse(&root)).unwrap();
    let chain = builder.finish().unwrap();
    let other_root = parse(&other).use_as_root().unwrap();
    let result = chain.verify(&other_root, now() as u64);
    assert!(matches!(result, Err(VerifyChainError::WrongRoot(_, _))));
}

#[test]
fn chain_with_expired_member_fails() {
    let root = root();
    let start = now() - 400 * DAY;
    let agent = issued_at(&root, "agent", start, 365 * DAY, false);
    let mut builder = CertificateChainBuilder::new(parse(&agent));
    builder.push_parent(parse(&root)).unwrap();
    let chain = builder.finish().unwrap();
    let root_cert = parse(&root).use_as_root().unwrap();
    let result = chain.verify(&root_cert, now() as u64);
    assert!(matches!(
        result,
        Err(VerifyChainError::SignatureVerificationFailed(
            SignatureVerificationError::ValidityError(ValidityError::Expired)
        ))
    ));
}

#[test]
fn chain_verification_with_checkable_validity() {
    let root = root();
    let agent = issued(&root, "agent", 365 * DAY, false);
    let mut builder = CertificateChainBuilder::new(parse(&agent));
    builder.push_parent(parse(&root)).unwrap();
    let chain = builder.finish().unwrap();
    let root_cert = parse(&root).use_as_root().unwrap();
    let verified = chain.try_verify(&root_cert, now() as u64).unwrap().unwrap();
    assert_eq!(verified.take_leaf().as_der(), agent.der.as_slice());
}

#[test]
fn root_only_chain_leaf_is_the_root() {
    let root = root();
    let chain = CertificateChainBuilder::new(parse(&root)).finish().unwrap();
    let root_cert = parse(&root).use_as_root().unwrap();
    let verified = chain.verify(&root_cert, now() as u64).unwrap();
    assert_eq!(verified.take_leaf().as_der(), root.der.as_slice());
}
