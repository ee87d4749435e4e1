use std::time::{SystemTime, UNIX_EPOCH};

use sha2::Digest;
use rcgen::{
    BasicConstraints, CertificateParams, DistinguishedName, DnType, IsCa, Issuer, KeyPair,
    PublicKeyData,
};
use svalin_pki::certificate::UnverifiedCertificate;
use svalin_pki::spki_hash::SpkiHash;
use svalin_pki::trust_store::{State, Transaction, TrustStoreError};

const DAY: i64 = 86400;

struct Party {
    key: KeyPair,
    params: CertificateParams,
    der: Vec<u8>,
}

fn now() -> i64 {
    SystemTime::now().duration_since(UNIX_EPOCH).unwrap().as_secs() as i64
}

fn params_for(key: &KeyPair, kind: &str, start: i64, secs: i64, ca: bool) -> CertificateParams {
    let mut params = CertificateParams::default();
    params.not_before = time::OffsetDateTime::from_unix_timestamp(start).unwrap();
    params.not_after = time::OffsetDateTime::from_unix_timestamp(start + secs).unwrap();
    params.is_ca = if ca {
        IsCa::Ca(BasicConstraints::Unconstrained)
    } else {
        IsCa::NoCa
    };
    let mut dn = DistinguishedName::new();
    dn.push(DnType::CommonName, SpkiHash::compute(&key.subject_public_key_info()).to_hex());
    dn.push(DnType::OrganizationalUnitName, kind);
    params.distinguished_name = dn;
    params
}

fn root() -> Party {
    let key = KeyPair::generate_for(&rcgen::PKCS_ED25519).unwrap();
    let params = params_for(&key, "root", now(), 3650 * DAY, true);
    let der = params.self_signed(&key).unwrap().der().to_vec();
    Party { key, params, der }
}

fn agent_at(issuer: &Party, start: i64) -> Party {
    let key = KeyPair::generate_for(&rcgen::PKCS_ED25519).unwrap();
    let params = params_for(&key, "agent", start, 365 * DAY, false);
    let der = params
        .signed_by(&key, &Issuer::from_params(&issuer.params, &issuer.key))
        .unwrap()
        .der()
        .to_vec();
    Party { key, params, der }
}

fn parse(party: &Party) -> UnverifiedCertificate {
    UnverifiedCertificate::from_der(party.der.clone()).unwrap()
}

fn store(root: &Party) -> State {
    State::initialize(parse(root).use_as_root().unwrap())
}

#[test]
fn add_is_checked_then_applied() {
    let root = root();
    let agent = agent_at(&root, now());
    let mut state = store(&root);
    let signer = *parse(&root).spki_hash();
    let time = now() as u64;
    let tx = Transaction::Add(parse(&agent));

    assert!(state.check(&signer, time, &tx).is_ok());
    state.apply(&signer, time, &tx);
    assert!(matches!(
        state.check(&signer, time, &tx),
        Err(TrustStoreError::CertificateAlreadyExists)
    ));
    // the added agent is known as a signer now, but the root is not its issuer
    let other_root = self::root();
    let other_agent = agent_at(&other_root, now());
    let agent_hash = *parse(&agent).spki_hash();
    assert!(matches!(
        state.check(&agent_hash, time, &Transaction::Add(parse(&other_agent))),
        Err(TrustStoreError::IssuerIsNotSigner)
    ));
}

#[test]
fn unknown_signer_is_refused() {
    let root = root();
    let agent = agent_at(&root, now());
    let state = store(&root);
    let stranger = *parse(&agent).spki_hash();
    let result = state.check(&stranger, now() as u64, &Transaction::Add(parse(&agent)));
    assert!(matches!(result, Err(TrustStoreError::SignerNotKnown)));
}

#[test]
fn invalid_signature_is_refused() {
    let root = root();
    let agent = agent_at(&root, now());
    let state = store(&root);
    let signer = *parse(&root).spki_hash();
    let result = state.check(&signer, (now() + 400 * DAY) as u64, &Transaction::Add(parse(&agent)));
    assert!(matches!(result, Err(TrustStoreError::CertificateInvalid(_))));
}

#[test]
fn revert_undoes_add() {
    let root = root();
    let agent = agent_at(&root, now());
    let mut state = store(&root);
    let before = state.digest();
    let signer = *parse(&root).spki_hash();
    let time = now() as u64;
    let tx = Transaction::Add(parse(&agent));
    state.apply(&signer, time, &tx);
    assert_ne!(state.digest(), before);
    state.revert(&tx);
    assert_eq!(state.digest(), before);
    assert!(state.check(&signer, time, &tx).is_ok());
}

#[test]
fn remove_expired_rules() {
    let root = root();
    let start = now() - 10 * DAY;
    let agent = agent_at(&root, start);
    let mut state = store(&root);
    let signer = *parse(&root).spki_hash();
    let add_time = now() as u64;
    state.apply(&signer, add_time, &Transaction::Add(parse(&agent)));

    let remove = Transaction::RemoveExpired(parse(&agent));
    assert!(matches!(
        state.check(&signer, add_time, &remove),
        Err(TrustStoreError::CertificateNotExpired)
    ));

    let later = (start + 366 * DAY) as u64;
    assert!(state.check(&signer, later, &remove).is_ok());
    let with_agent = state.digest();
    state.apply(&signer, later, &remove);
    assert!(matches!(
        state.check(&signer, later, &remove),
        Err(TrustStoreError::CertificateNotFound)
    ));
    state.revert(&remove);
    assert_eq!(state.digest(), with_agent);

    let unknown = agent_at(&root, start);
    assert!(matches!(
        state.check(&signer, later, &Transaction::RemoveExpired(parse(&unknown))),
        Err(TrustStoreError::CertificateNotFound)
    ));
}

#[test]
fn remove_must_match_stored_certificate() {
    let root = root();
    let start = now() - 10 * DAY;
    let agent = agent_at(&root, start);
    let mut state = store(&root);
    let signer = *parse(&root).spki_hash();
    state.apply(&signer, now() as u64, &Transaction::Add(parse(&agent)));

    // a second certificate for the same key, with other dates
    let params = params_for(&agent.key, "agent", start + 1, 365 * DAY, false);
    let twin = params
        .signed_by(&agent.key, &Issuer::from_params(&root.params, &root.key))
        .unwrap()
        .der()
        .to_vec();
    let twin = UnverifiedCertificate::from_der(twin).unwrap();
    assert_eq!(*twin.spki_hash(), *parse(&agent).spki_hash());
    let result = state.check(&signer, (start + 400 * DAY) as u64, &Transaction::RemoveExpired(twin));
    assert!(matches!(result, Err(TrustStoreError::CertificateDoesNotMatch)));
}

#[test]
fn transaction_digest_input_is_tagged() {
    let root = root();
    let cert = parse(&root);
    let mut expected = b"add".to_vec();
    expected.extend_from_slice(&root.der);
    assert_eq!(Transaction::Add(parse(&root)).digest_input(), expected);
    let mut expected = b"remove_expired".to_vec();
    expected.extend_from_slice(&root.der);
    assert_eq!(Transaction::RemoveExpired(cert).digest_input(), expected);
}

#[test]
fn test_serde() {
    let root = root();
    let agent = agent_at(&root, now());
    let mut state = store(&root);
    let signer = *parse(&root).spki_hash();
    state.apply(&signer, now() as u64, &Transaction::Add(parse(&agent)));

    let (saved_root, saved) = state.to_parts();
    let ders: (Vec<u8>, Vec<Vec<u8>>) = (
        saved_root.as_der().to_vec(),
        saved.iter().map(|c| c.as_der().to_vec()).collect(),
    );
    let serialized = postcard::to_stdvec(&ders).unwrap();
    let (root_der, cert_ders): (Vec<u8>, Vec<Vec<u8>>) = postcard::from_bytes(&serialized).unwrap();
    let deserialized = State::from_parts(
        UnverifiedCertificate::from_der(root_der).unwrap(),
        cert_ders
            .into_iter()
            .map(|der| UnverifiedCertificate::from_der(der).unwrap())
            .collect(),
    );

    assert_eq!(state.digest(), deserialized.digest());
}

#[test]
fn digest_is_sha512_of_root_and_certificates() {
    let root = root();
    let agent = agent_at(&root, now());
    let mut state = store(&root);
    let signer = *parse(&root).spki_hash();
    state.apply(&signer, now() as u64, &Transaction::Add(parse(&agent)));
    let mut stored = vec![(*parse(&root).spki_hash(), root.der.clone()), (*parse(&agent).spki_hash(), agent.der.clone())];
    stored.sort_by(|a, b| a.0.as_slice().cmp(b.0.as_slice()));
    let mut hasher = sha2::Sha512::new();
    hasher.update(&root.der);
    for (_, der) in &stored {
        hasher.update(der);
    }
    assert_eq!(state.digest(), hasher.finalize().to_vec());
}

#[test]
fn digest_ignores_storage_order() {
    let root = root();
    let agent = agent_at(&root, now());
    let forward = State::from_parts(parse(&root), vec![parse(&root), parse(&agent)]);
    let backward = State::from_parts(parse(&root), vec![parse(&agent), parse(&root)]);
    assert_eq!(forward.digest(), backward.digest());
}

#[test]
fn checking_with_checkable_validity() {
    let root = root();
    let agent = agent_at(&root, now());
    let state = store(&root);
    let signer = *parse(&root).spki_hash();
    let tx = Transaction::Add(parse(&agent));
    assert!(matches!(state.try_check(&signer, now() as u64, &tx), Some(Ok(()))));
    let stranger = *parse(&self::root()).spki_hash();
    assert!(matches!(
        state.try_check(&stranger, now() as u64, &tx),
        Some(Err(TrustStoreError::SignerNotKnown))
    ));
}

#[test]
fn built_states_are_well_formed() {
    let root = root();
    let agent = agent_at(&root, now());
    let state = State::from_parts(parse(&root), vec![parse(&agent), parse(&agent)]);
    assert!(state.is_well_formed());
    assert!(store(&root).is_well_formed());
}
