//! Credentials: a key pair with its certificate. A root credential signs
//! its own certificate; it issues agent certificates for the public keys of
//! devices. Certificates are written and signed by rcgen from a description
//! that the library computes: the common name is the SPKI hash of the key in
//! upper-case hex, the organizational unit names the certificate type, and the
//! validity period is the type's.

use vstd::prelude::*;

use crate::certificate::{
    lemma_parse_issuer_hex, parse_error_kind, spec_signature_accepts, spec_validity_at, utf8,
    spec_from_der, CertView, Certificate, CertificateParseError, DerOutcome, UnverifiedCertificate,
};
use crate::certificate_type::{
    ascii_bytes, lemma_type_name_round_trip, spec_may_be_parent_of, spec_type_name, spec_validity_secs,
    CertificateType,
};
use crate::encrypt::pow256;
use crate::hex::hex_upper;
use crate::hybrid::{ed25519_pkcs8_public, ed25519_pkcs8_to_x25519, raw_public};
use crate::encrypt::{aead_seal, default_alg, first_nonce, EncryptError, EncryptedDataView, EncryptionKey};
use crate::keypair::{
    key_encoding_detected, rcgen_ed25519_key, saved_key_der, saved_keypair_bytes, DecodeKeypairError, KeyPair,
    KeyReadError,
};
use crate::keys::{EncryptedCredentials, ExportedPublicKey};
use crate::spki_hash::{spec_spki_hash, SpkiHash};
use crate::x509::{x509_key_info, x509_names, x509_parses, x509_signature_valid};
use x509_parser::error::X509Error;

verus! {

#[verifier::external_type_specification]
#[verifier::external_body]
pub struct ExRcgenCertificateParams(rcgen::CertificateParams);

/// The key usages a certificate can name.
#[derive(Debug, Clone, Copy, PartialEq, Eq, Structural)]
pub enum KeyUsage {
    DigitalSignature,
    KeyCertSign,
}

/// What a new certificate says: subject common name and organizational
/// unit, validity bounds (Unix seconds), the CA flag, key usages, and whether
/// it names its issuer's key identifier.
#[derive(Debug)]
pub struct CertificateSpec {
    pub common_name: String,
    pub unit: String,
    pub not_before: i64,
    pub not_after: i64,
    pub is_ca: bool,
    pub key_usages: Vec<KeyUsage>,
    pub authority_key_identifier: bool,
}

/// The minimal big-endian bytes of `n` (none for zero).
pub open spec fn be_min(n: nat) -> Seq<u8>
    decreases n,
{
    if n == 0 {
        seq![]
    } else {
        be_min(n / 256).push((n % 256) as u8)
    }
}

/// The DER encoding of a length: one byte below 128, else the number of
/// length bytes (with the high bit set) followed by the length in big-endian.
pub open spec fn der_length(n: nat) -> Seq<u8> {
    if n < 128 {
        seq![n as u8]
    } else {
        seq![(128 + be_min(n).len()) as u8] + be_min(n)
    }
}

/// The DER SubjectPublicKeyInfo of the Ed25519 public key `raw`: the
/// algorithm identifier (OID 1.3.101.112, no parameters) and the key as a bit
/// string.
pub open spec fn ed25519_spki(raw: Seq<u8>) -> Seq<u8> {
    let alg = seq![0x30u8, 0x05, 0x06, 0x03, 0x2b, 0x65, 0x70];
    let bits = seq![0x03u8] + der_length(raw.len() + 1) + seq![0u8] + raw;
    seq![0x30u8] + der_length(alg.len() + bits.len()) + alg + bits
}

proof fn lemma_be_min_len_at_most(n: nat, k: nat)
    requires
        n < pow256(k),
    ensures
        be_min(n).len() <= k,
    decreases k,
{
    if n > 0 {
        assert(k > 0);
        let m = (k - 1) as nat;
        assert(n / 256 < pow256(m)) by (nonlinear_arith)
            requires
                n < 256 * pow256(m),
        ;
        lemma_be_min_len_at_most(n / 256, m);
    }
}

proof fn lemma_be_min_len(n: nat)
    ensures
        n < 0x1_0000_0000_0000_0000 ==> be_min(n).len() <= 8,
{
    assert(pow256(8) == 0x1_0000_0000_0000_0000) by {
        reveal_with_fuel(pow256, 9);
    }
    if n < 0x1_0000_0000_0000_0000 {
        lemma_be_min_len_at_most(n, 8);
    }
}

fn be_min_of(n: u64) -> (r: Vec<u8>)
    ensures
        r@ == be_min(n as nat),
    decreases n,
{
    if n == 0 {
        Vec::new()
    } else {
        let mut r = be_min_of(n / 256);
        r.push((n % 256) as u8);
        r
    }
}

fn der_length_of(n: u64) -> (r: Vec<u8>)
    ensures
        r@ == der_length(n as nat),
{
    if n < 128 {
        vec![n as u8]
    } else {
        let bytes = be_min_of(n);
        proof {
            lemma_be_min_len(n as nat);
        }
        let mut r = vec![(128 + bytes.len()) as u8];
        let mut rest = bytes;
        let ghost tail = rest@;
        r.append(&mut rest);
        assert(r@ =~= der_length(n as nat));
        r
    }
}

fn append_all(out: &mut Vec<u8>, bytes: &[u8])
    ensures
        final(out)@ == old(out)@ + bytes@,
{
    let mut i: usize = 0;
    while i < bytes.len()
        invariant
            i <= bytes@.len(),
            out@ == old(out)@ + bytes@.subrange(0, i as int),
        decreases bytes@.len() - i,
    {
        out.push(bytes[i]);
        i = i + 1;
        assert(out@ =~= old(out)@ + bytes@.subrange(0, i as int));
    }
    assert(bytes@.subrange(0, bytes@.len() as int) =~= bytes@);
}

/// The DER SubjectPublicKeyInfo of an Ed25519 public key.
pub fn ed25519_spki_of(raw: &[u8]) -> (r: Vec<u8>)
    requires
        raw@.len() + 32 <= u64::MAX,
    ensures
        r@ == ed25519_spki(raw@),
{
    let mut bits: Vec<u8> = vec![0x03u8];
    let len1 = der_length_of(raw.len() as u64 + 1);
    append_all(&mut bits, len1.as_slice());
    bits.push(0u8);
    append_all(&mut bits, raw);
    let alg: Vec<u8> = vec![0x30u8, 0x05, 0x06, 0x03, 0x2b, 0x65, 0x70];
    proof {
        lemma_be_min_len((raw@.len() + 1) as nat);
    }
    let mut out: Vec<u8> = vec![0x30u8];
    let len2 = der_length_of(7 + bits.len() as u64);
    append_all(&mut out, len2.as_slice());
    append_all(&mut out, alg.as_slice());
    append_all(&mut out, bits.as_slice());
    assert(alg@ =~= seq![0x30u8, 0x05, 0x06, 0x03, 0x2b, 0x65, 0x70]);
    assert(bits@ =~= seq![0x03u8] + der_length(raw@.len() + 1) + seq![0u8] + raw@);
    assert(out@ =~= ed25519_spki(raw@));
    out
}

/// Builds the rcgen parameters for a certificate description, all but the
/// subject name, which the issuing wrappers set: validity from the two Unix
/// timestamps (`OffsetDateTime::from_unix_timestamp`, failing with
/// `Error::Time`), `IsCa::Ca(Unconstrained)` or `IsCa::NoCa`, the key usages
/// and the authority key identifier flag. Nothing is promised of the
/// parameters: rcgen's type is opaque here.
#[verifier::external_body]
fn rcgen_params(spec: &CertificateSpec) -> (r: Result<rcgen::CertificateParams, rcgen::Error>)
{
    let mut params = rcgen::CertificateParams::default();
    params.not_before = time::OffsetDateTime::from_unix_timestamp(spec.not_before).map_err(|_| rcgen::Error::Time)?;
    params.not_after = time::OffsetDateTime::from_unix_timestamp(spec.not_after).map_err(|_| rcgen::Error::Time)?;
    params.is_ca = if spec.is_ca { rcgen::IsCa::Ca(rcgen::BasicConstraints::Unconstrained) } else { rcgen::IsCa::NoCa };
    params.key_usages = spec.key_usages.iter().map(|u| match u {
        KeyUsage::DigitalSignature => rcgen::KeyUsagePurpose::DigitalSignature,
        KeyUsage::KeyCertSign => rcgen::KeyUsagePurpose::KeyCertSign,
    }).collect();
    params.use_authority_key_identifier_extension = spec.authority_key_identifier;
    Ok(params)
}

/// Self-signs `params` with rcgen (`CertificateParams::self_signed`) using
/// the Ed25519 key `key_der`, read as `rcgen_read_key` reads it, with the
/// subject name made of the common name and the organizational unit
/// (`DistinguishedName::push`, as UTF-8 strings), and returns the
/// certificate's DER. Trusted: x509-parser reads back what rcgen wrote.
/// `serialize_der_with_signer` writes the subject public key info with
/// `serialize_public_key_der` of the signing key, the same bytes as its
/// `subject_public_key_info()`, and x509-parser reads back that element
/// (`raw`) and its bit string. Subject and issuer names are both the name
/// set here (`Issuer::from_params`), written in push order, so they are
/// equal, with one common name, and `as_str()` gives back the two strings.
/// The validity, extensions and signature bytes are left unsaid here.
#[verifier::external_body]
fn rcgen_self_signed(mut params: rcgen::CertificateParams, common_name: &str, unit: &str, key_der: &[u8]) -> (r: Result<Vec<u8>, rcgen::Error>)
    requires
        key_encoding_detected(key_der@),
        rcgen_ed25519_key(key_der@) is Some,
    ensures
        r is Ok && x509_parses(r->Ok_0@) ==> x509_key_info(r->Ok_0@).0 == rcgen_ed25519_key(key_der@)->Some_0.1
            && x509_key_info(r->Ok_0@).1 == rcgen_ed25519_key(key_der@)->Some_0.0,
        r is Ok && x509_parses(r->Ok_0@) ==> x509_names(r->Ok_0@) == (
            Some(Ok::<Seq<char>, X509Error>(common_name@)),
            Some(Ok::<Seq<char>, X509Error>(unit@)),
            Some(Ok::<Seq<char>, X509Error>(common_name@)),
            true,
            1nat,
        ),
{
    let key = rcgen::KeyPair::from_der_and_sign_algo(&key_der.try_into().unwrap(), &rcgen::PKCS_ED25519).unwrap();
    params.distinguished_name = rcgen::DistinguishedName::new();
    params.distinguished_name.push(rcgen::DnType::CommonName, common_name);
    params.distinguished_name.push(rcgen::DnType::OrganizationalUnitName, unit);
    params.self_signed(&key).map(|cert| cert.der().to_vec())
}

/// Why rcgen could not issue a certificate.
#[derive(Debug)]
pub enum IssueError {
    Issuer(rcgen::Error),
    Subject(rcgen::Error),
    Sign(rcgen::Error),
}

/// Issues a certificate with rcgen for the public key with SubjectPublicKeyInfo
/// `spki_der` (`SubjectPublicKeyInfo::from_der`), with the subject name made
/// of the common name and the organizational unit (`DistinguishedName::push`,
/// as UTF-8 strings), signed as the CA with certificate `issuer_der`
/// (`Issuer::from_ca_cert_der`) and Ed25519 key `issuer_key_der`, and returns
/// its DER (`CertificateParams::signed_by`). Trusted: x509-parser reads back
/// what rcgen wrote. A key handed over as `ed25519_spki(raw)` keeps its bit
/// string and algorithm (PKCS_ED25519, written without parameters) and is
/// written again with `serialize_public_key_der`, which gives back the same
/// DER. The subject name is the one set here, with one common name. The
/// issuer name is the CA's subject, re-read attribute by attribute
/// (`DistinguishedName::from_name`, keeping each string); where the CA has one
/// common name, the first issuer common name is that one. The certificate is
/// signed (`sign_der`) with the Ed25519 key `issuer_key_der` over the TBS
/// bytes, with the Ed25519 signature algorithm, so x509-parser's
/// `verify_signature` (ring's `ED25519` over `tbs_certificate.raw`) accepts
/// it under any certificate whose public key bits are that key's. The
/// validity and extension bytes are left unsaid here.
#[verifier::external_body]
fn rcgen_signed_by(
    mut params: rcgen::CertificateParams,
    common_name: &str,
    unit: &str,
    spki_der: &[u8],
    issuer_der: &[u8],
    issuer_key_der: &[u8],
) -> (r: Result<Vec<u8>, IssueError>)
    requires
        key_encoding_detected(issuer_key_der@),
        rcgen_ed25519_key(issuer_key_der@) is Some,
    ensures
        forall|raw: Seq<u8>| #[trigger] ed25519_spki(raw) == spki_der@ && r is Ok && x509_parses(r->Ok_0@)
            ==> x509_key_info(r->Ok_0@).0 == spki_der@ && x509_key_info(r->Ok_0@).1 == raw,
        r is Ok && x509_parses(r->Ok_0@) ==> x509_names(r->Ok_0@).0 == Some(Ok::<Seq<char>, X509Error>(common_name@))
            && x509_names(r->Ok_0@).1 == Some(Ok::<Seq<char>, X509Error>(unit@)) && x509_names(r->Ok_0@).4 == 1,
        r is Ok && x509_parses(r->Ok_0@) && x509_parses(issuer_der@) && x509_names(issuer_der@).4 == 1
            && (x509_names(issuer_der@).0 matches Some(Ok(_))) ==> x509_names(r->Ok_0@).2 == x509_names(issuer_der@).0,
        r is Ok && x509_parses(r->Ok_0@) && x509_parses(issuer_der@) && x509_key_info(issuer_der@).1 == rcgen_ed25519_key(
            issuer_key_der@,
        )->Some_0.0 ==> x509_signature_valid(r->Ok_0@, issuer_der@),
{
    let key = rcgen::KeyPair::from_der_and_sign_algo(&issuer_key_der.try_into().unwrap(), &rcgen::PKCS_ED25519).unwrap();
    let issuer = rcgen::Issuer::from_ca_cert_der(&issuer_der.to_vec().into(), key).map_err(IssueError::Issuer)?;
    let subject = rcgen::SubjectPublicKeyInfo::from_der(spki_der).map_err(IssueError::Subject)?;
    params.distinguished_name = rcgen::DistinguishedName::new();
    params.distinguished_name.push(rcgen::DnType::CommonName, common_name);
    params.distinguished_name.push(rcgen::DnType::OrganizationalUnitName, unit);
    params.signed_by(&subject, &issuer).map(|cert| cert.der().to_vec()).map_err(IssueError::Sign)
}

/// The current time as Unix seconds (`time::OffsetDateTime::now_utc()`).
/// Nothing is promised of it: it is the clock's.
#[verifier::external_body]
fn now_unix_secs() -> (r: i64)
{
    time::OffsetDateTime::now_utc().unix_timestamp()
}

/// `a + b`, or `i64::MAX` where that overflows.
pub open spec fn saturating_add_secs(a: i64, b: i64) -> i64 {
    if a + b > i64::MAX {
        i64::MAX
    } else {
        (a + b) as i64
    }
}

fn add_secs(a: i64, b: i64) -> (r: i64)
    requires
        b >= 0,
    ensures
        r == saturating_add_secs(a, b),
{
    if a > i64::MAX - b {
        i64::MAX
    } else {
        a + b
    }
}

/// The view of a certificate description.
pub struct CertificateSpecView {
    pub common_name: Seq<char>,
    pub unit: Seq<char>,
    pub not_before: i64,
    pub not_after: i64,
    pub is_ca: bool,
    pub key_usages: Seq<KeyUsage>,
    pub authority_key_identifier: bool,
}

impl View for CertificateSpec {
    type V = CertificateSpecView;

    open spec fn view(&self) -> CertificateSpecView {
        CertificateSpecView {
            common_name: self.common_name@,
            unit: self.unit@,
            not_before: self.not_before,
            not_after: self.not_after,
            is_ca: self.is_ca,
            key_usages: self.key_usages@,
            authority_key_identifier: self.authority_key_identifier,
        }
    }
}

/// The description of a root certificate for the key with SubjectPublicKeyInfo
/// `spki`, valid from `now` for the root's validity period, a CA for
/// signatures and certificate signing.
pub open spec fn spec_root_spec(spki: Seq<u8>, now: i64) -> CertificateSpecView {
    CertificateSpecView {
        common_name: hex_upper(spec_spki_hash(spki)),
        unit: spec_type_name(CertificateType::Root),
        not_before: now,
        not_after: saturating_add_secs(now, spec_validity_secs(CertificateType::Root) as i64),
        is_ca: true,
        key_usages: seq![KeyUsage::DigitalSignature, KeyUsage::KeyCertSign],
        authority_key_identifier: false,
    }
}

/// The description of an agent certificate for the key with
/// SubjectPublicKeyInfo `spki`, valid from `now` for the agent validity
/// period, not a CA, for signatures, naming its issuer's key identifier.
pub open spec fn spec_agent_spec(spki: Seq<u8>, now: i64) -> CertificateSpecView {
    CertificateSpecView {
        common_name: hex_upper(spec_spki_hash(spki)),
        unit: spec_type_name(CertificateType::Agent),
        not_before: now,
        not_after: saturating_add_secs(now, spec_validity_secs(CertificateType::Agent) as i64),
        is_ca: false,
        key_usages: seq![KeyUsage::DigitalSignature],
        authority_key_identifier: true,
    }
}

/// The description of the root certificate for the key with
/// SubjectPublicKeyInfo `spki` at time `now`.
pub fn root_certificate_spec(spki: &[u8], now: i64) -> (r: CertificateSpec)
    ensures
        r@ == spec_root_spec(spki@, now),
{
    let hash = SpkiHash::compute(spki);
    let common_name = hash.to_hex();
    let unit = CertificateType::Root.to_string();
    let validity = CertificateType::Root.validity_duration_secs();
    let not_after = add_secs(now, validity);
    let key_usages = vec![KeyUsage::DigitalSignature, KeyUsage::KeyCertSign];
    let r = CertificateSpec { common_name, unit, not_before: now, not_after, is_ca: true, key_usages, authority_key_identifier: false };
    assert(r@.key_usages =~= seq![KeyUsage::DigitalSignature, KeyUsage::KeyCertSign]);
    r
}

/// The description of an agent certificate for the key with
/// SubjectPublicKeyInfo `spki` at time `now`.
pub fn agent_certificate_spec(spki: &[u8], now: i64) -> (r: CertificateSpec)
    ensures
        r@ == spec_agent_spec(spki@, now),
{
    let hash = SpkiHash::compute(spki);
    let common_name = hash.to_hex();
    let unit = CertificateType::Agent.to_string();
    let validity = CertificateType::Agent.validity_duration_secs();
    let not_after = add_secs(now, validity);
    let key_usages = vec![KeyUsage::DigitalSignature];
    let r = CertificateSpec { common_name, unit, not_before: now, not_after, is_ca: false, key_usages, authority_key_identifier: true };
    assert(r@.key_usages =~= seq![KeyUsage::DigitalSignature]);
    r
}

/// Why a credential or certificate could not be created.
#[derive(Debug)]
pub enum CreateCredentialsError {
    KeyGenerateError(KeyReadError),
    SelfSignError(rcgen::Error),
    SignCertificateError(rcgen::Error),
    CertificateParseError(CertificateParseError),
    IssuerCreateError(rcgen::Error),
}

/// The UTF-8 bytes of ASCII text are its character codes.
proof fn lemma_utf8_ascii(s: Seq<char>)
    requires
        vstd::utf8::is_ascii_chars(s),
    ensures
        utf8(s) == ascii_bytes(s),
{
    vstd::utf8::is_ascii_chars_encode_utf8(s);
    assert(utf8(s) =~= ascii_bytes(s));
}

/// A certificate whose subject names the type `t` and whose issuer common
/// name is its own subject common name is of type `t` and names itself as
/// its issuer.
proof fn lemma_issued_type_and_issuer(der: Seq<u8>, v: CertView, cn: Seq<char>, t: CertificateType)
    requires
        spec_from_der(der) == DerOutcome::Valid(v),
        x509_names(der).0 == Some(Ok::<Seq<char>, X509Error>(cn)),
        x509_names(der).1 == Some(Ok::<Seq<char>, X509Error>(spec_type_name(t))),
    ensures
        v.certificate_type == t,
        x509_names(der).2 == Some(Ok::<Seq<char>, X509Error>(cn)) ==> v.issuer == v.spki_hash,
{
    assert(vstd::utf8::is_ascii_chars(spec_type_name(t)));
    lemma_utf8_ascii(spec_type_name(t));
    lemma_type_name_round_trip(t);
    let h = v.spki_hash;
    assert(ascii_bytes(hex_upper(h)).len() == 2 * h.len());
    if h.len() == 32 {
        lemma_parse_issuer_hex(h);
    }
}

/// The issuer common name of a certificate that reads as valid, where it is
/// the subject common name of a valid certificate `ca`, names `ca`.
proof fn lemma_issued_by(der: Seq<u8>, v: CertView, ca: CertView)
    requires
        spec_from_der(der) == DerOutcome::Valid(v),
        spec_from_der(ca.der) == DerOutcome::Valid(ca),
        x509_names(der).2 == x509_names(ca.der).0,
    ensures
        v.issuer == ca.spki_hash,
{
    let h = ca.spki_hash;
    assert(ascii_bytes(hex_upper(h)).len() == 2 * h.len());
    if h.len() == 32 {
        lemma_parse_issuer_hex(h);
    }
}

/// Reads a certificate that rcgen wrote; the issuer text split inside a
/// character (where reading would stop) is reported as an invalid issuer.
fn read_issued(der: Vec<u8>) -> (r: Result<Certificate, CreateCredentialsError>)
    ensures
        match spec_from_der(der@) {
            DerOutcome::Valid(v) => r is Ok && r->Ok_0@ == v,
            _ => r matches Err(CreateCredentialsError::CertificateParseError(_)),
        },
        r is Ok ==> r->Ok_0@.not_after - r->Ok_0@.not_before == spec_validity_secs(r->Ok_0@.certificate_type),
{
    match UnverifiedCertificate::try_from_der(der) {
        Some(Ok(c)) => Ok(c.mark_as_trusted()),
        Some(Err(e)) => Err(CreateCredentialsError::CertificateParseError(e)),
        None => Err(CreateCredentialsError::CertificateParseError(CertificateParseError::InvalidIssuer(String::new()))),
    }
}

/// Why saved credentials could not be restored.
#[derive(Debug)]
pub enum DecodeCredentialsError {
    ParseCertificateError(CertificateParseError),
    DecodeKeypairError(DecodeKeypairError),
    CreateCredentialsError(CreateCredentialsError),
}

impl EncryptedCredentials {
    /// Restores the credential: reads the certificate, then decrypts the key
    /// pair with `encryption_key`. Credentials that `Credential::export`
    /// saved under the same key come back with the same key and certificate.
    pub fn decrypt(self, encryption_key: &EncryptionKey) -> (r: Result<Credential, DecodeCredentialsError>)
        requires
            spec_from_der(self.raw_cert@) != DerOutcome::Panics,
        ensures
            match spec_from_der(self.raw_cert@) {
                DerOutcome::Invalid(kind) => (r matches Err(DecodeCredentialsError::ParseCertificateError(e)))
                    && parse_error_kind(r->Err_0->ParseCertificateError_0) == kind,
                DerOutcome::Valid(v) => match saved_key_der(
                    self.encrypted_keypair.data().alg,
                    encryption_key@,
                    self.encrypted_keypair.data().ciphertext,
                ) {
                    Some(der) => r is Ok && r->Ok_0.certificate_view() == v && r->Ok_0.key_der() == der,
                    None => (r matches Err(DecodeCredentialsError::DecodeKeypairError(_))),
                },
                DerOutcome::Panics => false,
            },
            forall|d: Seq<u8>|
                #![trigger saved_keypair_bytes(d)]
                aead_seal(self.encrypted_keypair.data().alg, encryption_key@, first_nonce(), saved_keypair_bytes(d)) == Some(
                    self.encrypted_keypair.data().ciphertext,
                ) && key_encoding_detected(d) && rcgen_ed25519_key(d) is Some && spec_from_der(self.raw_cert@) is Valid
                    ==> r is Ok && r->Ok_0.key_der() == d,
    {
        let certificate = match UnverifiedCertificate::from_der(self.raw_cert) {
            Ok(c) => c.mark_as_trusted(),
            Err(e) => return Err(DecodeCredentialsError::ParseCertificateError(e)),
        };
        let keypair = match KeyPair::decrypt(self.encrypted_keypair, encryption_key) {
            Ok(k) => k,
            Err(e) => return Err(DecodeCredentialsError::DecodeKeypairError(e)),
        };
        match Credential::new(keypair, certificate) {
            Ok(c) => Ok(c),
            Err(e) => Err(DecodeCredentialsError::CreateCredentialsError(e)),
        }
    }
}

/// Why a certificate request could not be approved.
#[derive(Debug)]
pub enum ApproveRequestError {
    CreateCaError(rcgen::Error),
    SignCertError(rcgen::Error),
    ParseNewCertError(CertificateParseError),
}

/// The DER certificate that rcgen issues for the PEM certificate signing
/// request `csr_pem` (`CertificateSigningRequestParams::from_pem`, then
/// `signed_by`), as the CA with certificate `issuer_der` and Ed25519 key
/// `issuer_key_der`; `None` where rcgen refuses.
pub uninterp spec fn csr_signed_der(csr_pem: Seq<char>, issuer_der: Seq<u8>, issuer_key_der: Seq<u8>) -> Option<Seq<u8>>;

/// Signs the certificate that a PEM request asks for with rcgen
/// (`CertificateSigningRequestParams::from_pem`, then `signed_by`), as the CA
/// with certificate `issuer_der` (`Issuer::from_ca_cert_der`) and Ed25519 key
/// `issuer_key_der`, and returns its DER. Trusted: the outcome is a function
/// of the three inputs, named `csr_signed_der`: the request's parameters are
/// read from the text alone, the serial number is the SHA-256 of the
/// requested key, and Ed25519 signing is deterministic. As for
/// `rcgen_signed_by`, the signature is made with `issuer_key_der` over the TBS
/// bytes, so x509-parser accepts it under a certificate whose public key bits
/// are that key's.
#[verifier::external_body]
fn rcgen_sign_request(csr_pem: &str, issuer_der: &[u8], issuer_key_der: &[u8]) -> (r: Result<Vec<u8>, IssueError>)
    requires
        key_encoding_detected(issuer_key_der@),
        rcgen_ed25519_key(issuer_key_der@) is Some,
    ensures
        match csr_signed_der(csr_pem@, issuer_der@, issuer_key_der@) {
            Some(d) => r is Ok && r->Ok_0@ == d,
            None => r is Err,
        },
        r is Ok && x509_parses(r->Ok_0@) && x509_parses(issuer_der@) && x509_key_info(issuer_der@).1 == rcgen_ed25519_key(
            issuer_key_der@,
        )->Some_0.0 ==> x509_signature_valid(r->Ok_0@, issuer_der@),
{
    let csr = rcgen::CertificateSigningRequestParams::from_pem(csr_pem).map_err(IssueError::Subject)?;
    let key = rcgen::KeyPair::from_der_and_sign_algo(&issuer_key_der.try_into().unwrap(), &rcgen::PKCS_ED25519).unwrap();
    let issuer = rcgen::Issuer::from_ca_cert_der(&issuer_der.to_vec().into(), key).map_err(IssueError::Issuer)?;
    csr.signed_by(&issuer).map(|cert| cert.der().to_vec()).map_err(IssueError::Sign)
}

/// A key pair together with its certificate.
#[derive(Debug)]
pub struct Credential {
    keypair: KeyPair,
    certificate: Certificate,
}

impl Credential {
    pub closed spec fn key_der(&self) -> Seq<u8> {
        self.keypair.der()
    }

    pub closed spec fn certificate_view(&self) -> CertView {
        self.certificate@
    }

    /// The key pair's public key, as rcgen reads the private key, is the
    /// certificate's public key.
    pub open spec fn certificate_matches_key(&self) -> bool {
        &&& rcgen_ed25519_key(self.key_der()) is Some
        &&& rcgen_ed25519_key(self.key_der())->Some_0.0 == self.certificate_view().public_key
    }

    /// The private key is the one for the certificate's public key, as
    /// ed25519-dalek reads the key, and converts to an X25519 scalar: the
    /// credential can open what is encrypted for its certificate.
    pub open spec fn key_matches_certificate(&self) -> bool {
        &&& ed25519_pkcs8_public(self.key_der()) == Some(raw_public(self.certificate_view().public_key))
        &&& ed25519_pkcs8_to_x25519(self.key_der()) is Some
    }

    /// Puts a key pair and its certificate together.
    pub fn new(keypair: KeyPair, certificate: Certificate) -> (r: Result<Credential, CreateCredentialsError>)
        ensures
            r is Ok && r->Ok_0.key_der() == keypair.der() && r->Ok_0.certificate_view() == certificate@,
    {
        Ok(Credential { keypair, certificate })
    }

    /// Generates a new key pair and a self-signed root certificate for it,
    /// valid for the root's ten years from now.
    /// The certificate carries the credential's own key.
    pub fn generate_root() -> (r: Result<Credential, CreateCredentialsError>)
        ensures
            r is Ok ==> spec_from_der(r->Ok_0.certificate_view().der) == DerOutcome::Valid(r->Ok_0.certificate_view()),
            r is Ok ==> (rcgen_ed25519_key(r->Ok_0.key_der()) matches Some((public_key, spki))
                && r->Ok_0.certificate_view().public_key == public_key
                && r->Ok_0.certificate_view().spki_hash == spec_spki_hash(spki)),
            r is Ok ==> ({
                let c = r->Ok_0.certificate_view();
                &&& c.certificate_type == CertificateType::Root
                &&& c.is_ca
                &&& c.issuer == c.spki_hash
                &&& c.not_after - c.not_before == spec_validity_secs(CertificateType::Root)
                &&& x509_names(c.der).4 == 1
            }),
            r is Ok ==> r->Ok_0.key_matches_certificate() && r->Ok_0.certificate_matches_key(),
    {
        let keypair = match KeyPair::generate() {
            Ok(k) => k,
            Err(e) => return Err(CreateCredentialsError::KeyGenerateError(e)),
        };
        let spec = root_certificate_spec(keypair.subject_public_key_info(), now_unix_secs());
        let params = match rcgen_params(&spec) {
            Ok(p) => p,
            Err(e) => return Err(CreateCredentialsError::SelfSignError(e)),
        };
        let der = match rcgen_self_signed(params, spec.common_name.as_str(), spec.unit.as_str(), keypair.der_bytes()) {
            Ok(der) => der,
            Err(e) => return Err(CreateCredentialsError::SelfSignError(e)),
        };
        let ghost der_view = der@;
        let certificate = match read_issued(der) {
            Ok(c) => c,
            Err(e) => return Err(e),
        };
        let _ = certificate.as_der();
        proof {
            lemma_issued_type_and_issuer(der_view, certificate@, spec.common_name@, CertificateType::Root);
            assert(raw_public(keypair.public_key()) =~= keypair.public_key());
        }
        Self::new(keypair, certificate)
    }

    /// Issues an agent certificate for `public_key`, signed by this
    /// credential, valid for a year from now.
    /// The certificate carries `public_key`.
    pub fn create_leaf_certificate_for_key(&self, public_key: &ExportedPublicKey) -> (r: Result<Certificate, CreateCredentialsError>)
        requires
            public_key.der().len() + 32 <= u64::MAX,
        ensures
            r is Ok ==> spec_from_der(r->Ok_0@.der) == DerOutcome::Valid(r->Ok_0@),
            r is Ok ==> r->Ok_0@.public_key == public_key.der()
                && r->Ok_0@.spki_hash == spec_spki_hash(ed25519_spki(public_key.der())),
            r is Ok ==> ({
                let c = r->Ok_0@;
                &&& c.certificate_type == CertificateType::Agent
                &&& !c.is_ca
                &&& c.not_after - c.not_before == spec_validity_secs(CertificateType::Agent)
                &&& x509_names(self.certificate_view().der).4 == 1 ==> c.issuer == self.certificate_view().spki_hash
            }),
            r is Ok && self.certificate_matches_key() ==> x509_signature_valid(r->Ok_0@.der, self.certificate_view().der),
            r is Ok && self.certificate_matches_key() && spec_may_be_parent_of(
                self.certificate_view().certificate_type,
                CertificateType::Agent,
            ) ==> forall|time: u64|
                spec_validity_at(r->Ok_0@, time) is Ok ==> #[trigger] spec_signature_accepts(r->Ok_0@, self.certificate_view(), time),
    {
        let spki = ed25519_spki_of(public_key.der_bytes());
        let spec = agent_certificate_spec(spki.as_slice(), now_unix_secs());
        let params = match rcgen_params(&spec) {
            Ok(p) => p,
            Err(e) => return Err(CreateCredentialsError::SignCertificateError(e)),
        };
        let der = match rcgen_signed_by(
            params,
            spec.common_name.as_str(),
            spec.unit.as_str(),
            spki.as_slice(),
            self.certificate.as_der(),
            self.keypair.der_bytes(),
        ) {
            Ok(der) => der,
            Err(IssueError::Issuer(e)) => return Err(CreateCredentialsError::IssuerCreateError(e)),
            Err(IssueError::Subject(e)) => return Err(CreateCredentialsError::SignCertificateError(e)),
            Err(IssueError::Sign(e)) => return Err(CreateCredentialsError::SignCertificateError(e)),
        };
        let ghost der_view = der@;
        let certificate = match read_issued(der) {
            Ok(c) => c,
            Err(e) => return Err(e),
        };
        let _ = certificate.as_der();
        let _ = self.certificate.as_der();
        proof {
            lemma_issued_type_and_issuer(der_view, certificate@, spec.common_name@, CertificateType::Agent);
            if x509_names(self.certificate_view().der).4 == 1 {
                lemma_issued_by(der_view, certificate@, self.certificate_view());
            }
        }
        Ok(certificate)
    }

    /// The certificate.
    pub fn get_certificate(&self) -> (r: &Certificate)
        ensures
            r@ == self.certificate_view(),
    {
        &self.certificate
    }

    /// A copy of the credential.
    pub fn duplicate(&self) -> (r: Credential)
        ensures
            r.key_der() == self.key_der(),
            r.certificate_view() == self.certificate_view(),
    {
        Credential { keypair: self.keypair.duplicate(), certificate: self.certificate.duplicate() }
    }

    /// The PKCS#8 DER bytes of the private key.
    pub fn get_der_key_bytes(&self) -> (r: &[u8])
        ensures
            r@ == self.key_der(),
    {
        self.keypair.der_bytes()
    }

    /// Signs the certificate that `request` asks for, as the CA of this
    /// credential.
    pub fn approve_request(&self, request: CertificateRequest) -> (r: Result<Certificate, ApproveRequestError>)
        ensures
            match csr_signed_der(request.pem(), self.certificate_view().der, self.key_der()) {
                None => (r matches Err(ApproveRequestError::CreateCaError(_))) || (r matches Err(
                    ApproveRequestError::SignCertError(_),
                )),
                Some(d) => match spec_from_der(d) {
                    DerOutcome::Valid(v) => r is Ok && r->Ok_0@ == v,
                    DerOutcome::Invalid(kind) => (r matches Err(ApproveRequestError::ParseNewCertError(e)))
                        && parse_error_kind(r->Err_0->ParseNewCertError_0) == kind,
                    DerOutcome::Panics => (r matches Err(ApproveRequestError::ParseNewCertError(_))),
                },
            },
            r is Ok && self.certificate_matches_key() ==> x509_signature_valid(r->Ok_0@.der, self.certificate_view().der),
    {
        let der = match rcgen_sign_request(request.pem.as_str(), self.certificate.as_der(), self.keypair.der_bytes()) {
            Ok(der) => der,
            Err(IssueError::Issuer(e)) => return Err(ApproveRequestError::CreateCaError(e)),
            Err(IssueError::Subject(e)) => return Err(ApproveRequestError::SignCertError(e)),
            Err(IssueError::Sign(e)) => return Err(ApproveRequestError::SignCertError(e)),
        };
        let _ = self.certificate.as_der();
        match UnverifiedCertificate::try_from_der(der) {
            Some(Ok(c)) => {
                let _ = c.as_der();
                Ok(c.mark_as_trusted())
            },
            Some(Err(e)) => Err(ApproveRequestError::ParseNewCertError(e)),
            None => Err(ApproveRequestError::ParseNewCertError(CertificateParseError::InvalidIssuer(String::new()))),
        }
    }

    /// The credential in its saved form: the key pair encrypted under
    /// `encryption_key`, and the certificate's DER encoding.
    pub fn export(&self, encryption_key: &EncryptionKey) -> (r: Result<EncryptedCredentials, EncryptError>)
        ensures
            aead_seal(default_alg(), encryption_key@, first_nonce(), saved_keypair_bytes(self.key_der())) is Some <==> r is Ok,
            r is Ok ==> r->Ok_0.encrypted_keypair.data() == (EncryptedDataView {
                ciphertext: aead_seal(default_alg(), encryption_key@, first_nonce(), saved_keypair_bytes(self.key_der()))->0,
                alg: default_alg(),
            }),
            r is Ok ==> r->Ok_0.raw_cert@ == self.certificate_view().der,
    {
        let encrypted_keypair = match self.keypair.encrypt(encryption_key) {
            Ok(e) => e,
            Err(e) => return Err(e),
        };
        let mut raw_cert: Vec<u8> = Vec::new();
        append_all(&mut raw_cert, self.certificate.as_der());
        assert(raw_cert@ =~= self.certificate_view().der);
        Ok(EncryptedCredentials { encrypted_keypair, raw_cert })
    }

    /// The key pair.
    pub fn keypair(&self) -> (r: &KeyPair)
        ensures
            r.der() == self.key_der(),
    {
        &self.keypair
    }
}

/// Whether rcgen accepts `text` as a PEM certificate signing request whose
/// signature verifies (`CertificateSigningRequestParams::from_pem`).
pub uninterp spec fn csr_pem_accepted(text: Seq<char>) -> bool;

/// Parses a PEM certificate signing request with rcgen and keeps whether it
/// succeeded. Trusted: success is a function of the text, named
/// `csr_pem_accepted`.
#[verifier::external_body]
fn rcgen_csr_from_pem(text: &str) -> (r: Result<(), rcgen::Error>)
    ensures
        r is Ok <==> csr_pem_accepted(text@),
{
    rcgen::CertificateSigningRequestParams::from_pem(text).map(|_| ())
}

/// A certificate signing request, held as the PEM text that rcgen accepted.
pub struct CertificateRequest {
    pem: String,
}

/// Why a certificate signing request could not be read.
#[derive(Debug)]
pub enum CertificateRequestParseError {
    ParseError(rcgen::Error),
}

impl CertificateRequest {
    /// The PEM text of the request.
    pub closed spec fn pem(&self) -> Seq<char> {
        self.pem@
    }

    /// Reads a PEM certificate signing request.
    pub fn from_string(string: String) -> (r: Result<CertificateRequest, CertificateRequestParseError>)
        ensures
            r is Ok <==> csr_pem_accepted(string@),
            r is Ok ==> r->Ok_0.pem() == string@,
    {
        match rcgen_csr_from_pem(string.as_str()) {
            Ok(()) => Ok(CertificateRequest { pem: string }),
            Err(e) => Err(CertificateRequestParseError::ParseError(e)),
        }
    }
}

} // verus!
