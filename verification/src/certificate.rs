//! Svalin certificates: parsing a DER certificate and checking it against the
//! naming and typing conventions, checking its validity period, verifying its
//! signature against an issuer, and the marks that distinguish an unverified
//! certificate from a trusted one and from the root.

use vstd::prelude::*;
use vstd::std_specs::cmp::PartialEqSpecImpl;
use vstd::string::StringSliceAdditionalSpecFns;

use x509_parser::error::X509Error;

use crate::certificate_type::{
    ascii_bytes, lemma_type_name_round_trip, spec_may_be_parent_of, spec_should_be_ca, spec_type_from_name,
    spec_type_name, spec_validity_secs, CertificateType, CertificateTypeError,
};
use crate::digest::sha512_256;
use crate::hex::{hex_upper, hex_value, nibble, upper_digit};
use crate::spki_hash::{spec_spki_hash, SpkiHash};
use crate::x509::{
    x509_check, x509_key_info, x509_key_info_of, x509_names, x509_names_of, x509_parses,
    x509_signature_valid, x509_validity, x509_validity_of, x509_verify_signature,
};

verus! {

/// Why a certificate's validity period does not cover a moment.
#[derive(Debug, Clone, Copy, PartialEq, Eq, Structural)]
pub enum ValidityError {
    NotYetValid,
    Expired,
}

/// Why a DER certificate is not an acceptable svalin certificate.
#[derive(Debug)]
pub enum CertificateParseError {
    X509ParserError(x509_parser::nom::Err<X509Error>),
    X509Error(X509Error),
    MissingCommonName,
    MissingOrganizationalUnit,
    InvalidCertificateType(CertificateTypeError),
    IssuerMissingCommonName,
    SpkiHashMismatch,
    ShouldNotBeCa(CertificateType),
    ShouldBeCa(CertificateType),
    SelfSignedNotRootOrTemp,
    BrokenValidity,
    /// Type, expected validity span, actual span (seconds, nanoseconds).
    IncorrectValidityDuration(CertificateType, (i64, i32), (i64, i32)),
    InvalidIssuer(String),
}

/// Why a signature check of a certificate failed.
#[derive(Debug)]
pub enum SignatureVerificationError {
    X509ParserError(x509_parser::nom::Err<X509Error>),
    X509VerificationError(X509Error),
    InvalidCertificateType(CertificateType, CertificateType),
    ValidityError(ValidityError),
}

/// A certificate that was expected to be a root is of another type.
#[derive(Debug)]
pub enum UseAsRootError {
    InvalidCertificateType,
}

/// What a certificate says, as the library reads it.
pub struct CertView {
    pub der: Seq<u8>,
    pub certificate_type: CertificateType,
    pub public_key: Seq<u8>,
    pub spki_hash: Seq<u8>,
    pub is_ca: bool,
    pub issuer: Seq<u8>,
    pub not_before: i64,
    pub not_after: i64,
}

/// The kind of a `CertificateParseError`, with the payloads that the input determines.
pub enum ParseErrorKind {
    X509Parser,
    X509,
    MissingCommonName,
    MissingOrganizationalUnit,
    InvalidCertificateType,
    SpkiHashMismatch,
    ShouldNotBeCa(CertificateType),
    ShouldBeCa(CertificateType),
    SelfSignedNotRootOrTemp,
    BrokenValidity,
    IncorrectValidityDuration(CertificateType, (i64, i32), (i64, i32)),
    InvalidIssuer(Seq<char>),
}

pub open spec fn parse_error_kind(e: CertificateParseError) -> ParseErrorKind {
    match e {
        CertificateParseError::X509ParserError(_) => ParseErrorKind::X509Parser,
        CertificateParseError::X509Error(_) => ParseErrorKind::X509,
        CertificateParseError::MissingCommonName => ParseErrorKind::MissingCommonName,
        CertificateParseError::MissingOrganizationalUnit => ParseErrorKind::MissingOrganizationalUnit,
        CertificateParseError::InvalidCertificateType(_) => ParseErrorKind::InvalidCertificateType,
        CertificateParseError::IssuerMissingCommonName => ParseErrorKind::MissingCommonName,
        CertificateParseError::SpkiHashMismatch => ParseErrorKind::SpkiHashMismatch,
        CertificateParseError::ShouldNotBeCa(t) => ParseErrorKind::ShouldNotBeCa(t),
        CertificateParseError::ShouldBeCa(t) => ParseErrorKind::ShouldBeCa(t),
        CertificateParseError::SelfSignedNotRootOrTemp => ParseErrorKind::SelfSignedNotRootOrTemp,
        CertificateParseError::BrokenValidity => ParseErrorKind::BrokenValidity,
        CertificateParseError::IncorrectValidityDuration(t, expected, got) => ParseErrorKind::IncorrectValidityDuration(t, expected, got),
        CertificateParseError::InvalidIssuer(text) => ParseErrorKind::InvalidIssuer(text@),
    }
}

/// The result of reading a DER certificate: accepted with its contents,
/// rejected for a reason, or a split of the issuer text inside a multi-byte
/// character (where slicing the text by bytes would panic).
pub enum DerOutcome {
    Valid(CertView),
    Invalid(ParseErrorKind),
    Panics,
}

/// Outcome of reading the issuer name as 32 hexadecimal byte pairs.
pub enum IssuerParse {
    Parsed(Seq<u8>),
    Invalid,
    Panics,
}

/// `str::is_char_boundary` on the UTF-8 bytes of a string.
pub open spec fn char_boundary(b: Seq<u8>, i: int) -> bool {
    i == 0 || i == b.len() || (0 < i < b.len() && !(128 <= b[i] < 192))
}

/// `u8::from_str_radix(s, 16)` on a two-byte string `[b0, b1]`: an optional
/// leading `+` followed by hex digits.
pub open spec fn radix16_pair(b0: u8, b1: u8) -> Option<u8> {
    if b0 == 43 {
        match hex_value(b1) {
            Some(v) => Some(v as u8),
            None => None,
        }
    } else {
        match (hex_value(b0), hex_value(b1)) {
            (Some(h), Some(l)) => Some((h * 16 + l) as u8),
            _ => None,
        }
    }
}

/// Reads byte pairs `i..32` of a 64-byte issuer name, appending to `acc`.
pub open spec fn parse_issuer_from(b: Seq<u8>, i: nat, acc: Seq<u8>) -> IssuerParse
    decreases 32 - i,
{
    if i >= 32 {
        IssuerParse::Parsed(acc)
    } else if !char_boundary(b, 2 * i as int) || !char_boundary(b, 2 * i as int + 2) {
        IssuerParse::Panics
    } else {
        match radix16_pair(b[2 * i as int], b[2 * i as int + 1]) {
            None => IssuerParse::Invalid,
            Some(v) => parse_issuer_from(b, i + 1, acc.push(v)),
        }
    }
}

/// Reads the issuer's SPKI hash from the UTF-8 bytes of the issuer common name.
pub open spec fn parse_issuer(b: Seq<u8>) -> IssuerParse {
    if b.len() != 64 {
        IssuerParse::Invalid
    } else {
        parse_issuer_from(b, 0, seq![])
    }
}

/// Reading the upper-case hex text of `h` from position `i` on, after the
/// first `i` bytes of `h` were read, gives `h`.
proof fn lemma_parse_issuer_from_hex(h: Seq<u8>, i: nat)
    requires
        h.len() == 32,
        i <= 32,
    ensures
        parse_issuer_from(ascii_bytes(hex_upper(h)), i, h.subrange(0, i as int)) == IssuerParse::Parsed(h),
    decreases 32 - i,
{
    let b = ascii_bytes(hex_upper(h));
    if i < 32 {
        let k = 2 * i as int;
        let hi = nibble(h, k);
        let lo = nibble(h, k + 1);
        assert(0 <= hi < 16 && 0 <= lo < 16);
        assert(b[k] == upper_digit(hi) as u8);
        assert(b[k + 1] == upper_digit(lo) as u8);
        assert(hex_value(b[k]) == Some(hi));
        assert(hex_value(b[k + 1]) == Some(lo));
        assert(b[k] != 43);
        if k + 2 < 64 {
            assert(b[k + 2] == upper_digit(nibble(h, k + 2)) as u8);
            assert(0 <= nibble(h, k + 2) < 16);
        }
        assert(char_boundary(b, k));
        assert(char_boundary(b, k + 2));
        assert(hi * 16 + lo == h[i as int]);
        assert(radix16_pair(b[k], b[k + 1]) == Some(h[i as int]));
        assert(h.subrange(0, i as int).push(h[i as int]) =~= h.subrange(0, i + 1 as int));
        lemma_parse_issuer_from_hex(h, i + 1);
    } else {
        assert(h.subrange(0, 32) =~= h);
    }
}

/// The upper-case hex text of a 32-byte hash, read as an issuer name, gives
/// the hash back.
pub proof fn lemma_parse_issuer_hex(h: Seq<u8>)
    requires
        h.len() == 32,
    ensures
        parse_issuer(ascii_bytes(hex_upper(h))) == IssuerParse::Parsed(h),
{
    assert(h.subrange(0, 0) =~= seq![]);
    lemma_parse_issuer_from_hex(h, 0);
}

/// UTF-8 bytes of text.
pub open spec fn utf8(s: Seq<char>) -> Seq<u8> {
    vstd::utf8::encode_utf8(s)
}

/// The steps of reading a certificate after its subject name and type are known.
pub open spec fn outcome_after_type(der: Seq<u8>, t: CertificateType) -> DerOutcome {
    let (spki_raw, public_key, is_ca) = x509_key_info(der);
    let (_, _, issuer_cn, self_issued, _) = x509_names(der);
    let (span, not_before, not_after) = x509_validity(der);
    match span {
        None => DerOutcome::Invalid(ParseErrorKind::BrokenValidity),
        Some(got) => if got != (spec_validity_secs(t) as i64, 0i32) {
            DerOutcome::Invalid(ParseErrorKind::IncorrectValidityDuration(t, (spec_validity_secs(t) as i64, 0i32), got))
        } else {
            match issuer_cn {
                None => DerOutcome::Invalid(ParseErrorKind::MissingCommonName),
                Some(Err(_)) => DerOutcome::Invalid(ParseErrorKind::X509),
                Some(Ok(icn)) => match parse_issuer(utf8(icn)) {
                    IssuerParse::Invalid => DerOutcome::Invalid(ParseErrorKind::InvalidIssuer(icn)),
                    IssuerParse::Panics => DerOutcome::Panics,
                    IssuerParse::Parsed(issuer) => if self_issued && t != CertificateType::Root
                        && t != CertificateType::Temporary {
                        DerOutcome::Invalid(ParseErrorKind::SelfSignedNotRootOrTemp)
                    } else if is_ca != spec_should_be_ca(t) {
                        if is_ca {
                            DerOutcome::Invalid(ParseErrorKind::ShouldNotBeCa(t))
                        } else {
                            DerOutcome::Invalid(ParseErrorKind::ShouldBeCa(t))
                        }
                    } else {
                        DerOutcome::Valid(
                            CertView {
                                der,
                                certificate_type: t,
                                public_key,
                                spki_hash: spec_spki_hash(spki_raw),
                                is_ca,
                                issuer,
                                not_before,
                                not_after,
                            },
                        )
                    },
                },
            }
        },
    }
}

/// What reading the DER certificate `der` gives.
pub open spec fn spec_from_der(der: Seq<u8>) -> DerOutcome {
    if !x509_parses(der) {
        DerOutcome::Invalid(ParseErrorKind::X509Parser)
    } else {
        let (spki_raw, _, _) = x509_key_info(der);
        let (subject_cn, subject_ou, _, _, _) = x509_names(der);
        match subject_cn {
            None => DerOutcome::Invalid(ParseErrorKind::MissingCommonName),
            Some(Err(_)) => DerOutcome::Invalid(ParseErrorKind::X509),
            Some(Ok(cn)) => match subject_ou {
                None => DerOutcome::Invalid(ParseErrorKind::MissingOrganizationalUnit),
                Some(Err(_)) => DerOutcome::Invalid(ParseErrorKind::X509),
                Some(Ok(ou)) => match spec_type_from_name(utf8(ou)) {
                    None => DerOutcome::Invalid(ParseErrorKind::InvalidCertificateType),
                    Some(t) => if utf8(cn) != ascii_bytes(hex_upper(spec_spki_hash(spki_raw))) {
                        DerOutcome::Invalid(ParseErrorKind::SpkiHashMismatch)
                    } else {
                        outcome_after_type(der, t)
                    },
                },
            },
        }
    }
}

/// What every accepted certificate is: x509-parser reads it; its SPKI hash is
/// the SHA-512/256 of the SubjectPublicKeyInfo it carries, and its subject
/// common name is that hash in upper-case hex; its subject organizational
/// unit names its type; its validity span is exactly the type's; it is a CA
/// exactly when it is a root or a user; its issuer common name reads as the
/// issuer's hash; and a self-issued certificate (issuer name equal to subject
/// name) is a root or a temporary certificate.
pub proof fn lemma_accepted_certificate(der: Seq<u8>, v: CertView)
    requires
        spec_from_der(der) == DerOutcome::Valid(v),
    ensures
        x509_parses(der),
        v.der == der,
        v.spki_hash == sha512_256(x509_key_info(der).0),
        v.public_key == x509_key_info(der).1,
        v.is_ca == x509_key_info(der).2,
        x509_names(der).0 matches Some(Ok(cn)) && utf8(cn) == ascii_bytes(hex_upper(v.spki_hash)),
        x509_names(der).1 matches Some(Ok(ou)) && utf8(ou) == ascii_bytes(spec_type_name(v.certificate_type)),
        x509_validity(der) == (Some((spec_validity_secs(v.certificate_type) as i64, 0i32)), v.not_before, v.not_after),
        v.is_ca <==> (v.certificate_type == CertificateType::Root || v.certificate_type == CertificateType::User),
        x509_names(der).2 matches Some(Ok(icn)) && parse_issuer(utf8(icn)) == IssuerParse::Parsed(v.issuer),
        x509_names(der).3 ==> v.certificate_type == CertificateType::Root || v.certificate_type == CertificateType::Temporary,
{
    lemma_type_name_round_trip(CertificateType::Root);
    lemma_type_name_round_trip(CertificateType::User);
    lemma_type_name_round_trip(CertificateType::UserDevice);
    lemma_type_name_round_trip(CertificateType::Agent);
    lemma_type_name_round_trip(CertificateType::Server);
    lemma_type_name_round_trip(CertificateType::Temporary);
}

/// Whether checking the validity period of `c` at `time` is defined: both
/// bounds it compares against are non-negative timestamps.
pub open spec fn validity_defined(c: CertView, time: u64) -> bool {
    c.not_before >= 0 && (time >= c.not_before ==> c.not_after >= 0)
}

/// The outcome of checking the validity period of `c` at `time`.
pub open spec fn spec_validity_at(c: CertView, time: u64) -> Result<(), ValidityError> {
    if time < c.not_before {
        Err(ValidityError::NotYetValid)
    } else if time > c.not_after {
        Err(ValidityError::Expired)
    } else {
        Ok(())
    }
}

/// A parsed certificate that follows the svalin conventions but whose
/// signature has not been checked.
#[derive(Debug)]
pub struct UnverifiedCertificate {
    der: Vec<u8>,
    certificate_type: CertificateType,
    public_key: Vec<u8>,
    spki_hash: SpkiHash,
    is_ca: bool,
    issuer: SpkiHash,
    not_before: i64,
    not_after: i64,
}

impl View for UnverifiedCertificate {
    type V = CertView;

    closed spec fn view(&self) -> CertView {
        CertView {
            der: self.der@,
            certificate_type: self.certificate_type,
            public_key: self.public_key@,
            spki_hash: self.spki_hash@,
            is_ca: self.is_ca,
            issuer: self.issuer@,
            not_before: self.not_before,
            not_after: self.not_after,
        }
    }
}

impl UnverifiedCertificate {
    /// Every certificate value is what reading its own DER gives.
    #[verifier::type_invariant]
    closed spec fn inv(self) -> bool {
        spec_from_der(self.der@) == DerOutcome::Valid(self@)
    }

    /// Reads a DER certificate and checks it against the svalin conventions.
    /// Returns `None` exactly where the issuer text would be split inside a
    /// multi-byte character.
    pub fn try_from_der(der: Vec<u8>) -> (r: Option<Result<UnverifiedCertificate, CertificateParseError>>)
        ensures
            match spec_from_der(der@) {
                DerOutcome::Panics => r is None,
                DerOutcome::Invalid(kind) => r is Some && r->0 is Err && parse_error_kind(r->0->Err_0) == kind,
                DerOutcome::Valid(v) => r is Some && r->0 is Ok && r->0->Ok_0@ == v,
            },
            r matches Some(Ok(c)) ==> c@.not_after - c@.not_before == spec_validity_secs(c@.certificate_type),
            r matches Some(Ok(c)) ==> {
                &&& x509_names(der@).3 ==> c@.certificate_type == CertificateType::Root || c@.certificate_type
                    == CertificateType::Temporary
                &&& c@.is_ca <==> (c@.certificate_type == CertificateType::Root || c@.certificate_type
                    == CertificateType::User)
                &&& c@.spki_hash == sha512_256(x509_key_info(der@).0)
                &&& x509_names(der@).0 matches Some(Ok(cn)) && utf8(cn) == ascii_bytes(hex_upper(c@.spki_hash))
                &&& x509_names(der@).1 matches Some(Ok(ou)) && utf8(ou) == ascii_bytes(spec_type_name(c@.certificate_type))
            },
    {
        proof {
            if spec_from_der(der@) is Valid {
                lemma_accepted_certificate(der@, spec_from_der(der@)->Valid_0);
            }
        }
        match x509_check(der.as_slice()) {
            Err(e) => return Some(Err(CertificateParseError::X509ParserError(e))),
            Ok(()) => {},
        }
        let (spki_raw, public_key, is_ca) = x509_key_info_of(der.as_slice());
        let spki_hash = SpkiHash::compute(spki_raw.as_slice());
        let (subject_cn, subject_ou, issuer_cn, self_issued, _) = x509_names_of(der.as_slice());
        let cn = match subject_cn {
            None => return Some(Err(CertificateParseError::MissingCommonName)),
            Some(Err(e)) => return Some(Err(CertificateParseError::X509Error(e))),
            Some(Ok(cn)) => cn,
        };
        let ou = match subject_ou {
            None => return Some(Err(CertificateParseError::MissingOrganizationalUnit)),
            Some(Err(e)) => return Some(Err(CertificateParseError::X509Error(e))),
            Some(Ok(ou)) => ou,
        };
        let certificate_type = match CertificateType::from_str(ou.as_str()) {
            Err(e) => return Some(Err(CertificateParseError::InvalidCertificateType(e))),
            Ok(t) => t,
        };
        let hex = spki_hash.to_hex_bytes();
        if !bytes_eq(hex.as_slice(), cn.as_str().as_bytes()) {
            return Some(Err(CertificateParseError::SpkiHashMismatch));
        }
        let (span, not_before, not_after) = x509_validity_of(der.as_slice());
        let got = match span {
            None => return Some(Err(CertificateParseError::BrokenValidity)),
            Some(got) => got,
        };
        let expected = (certificate_type.validity_duration_secs(), 0i32);
        if got.0 != expected.0 || got.1 != expected.1 {
            return Some(Err(CertificateParseError::IncorrectValidityDuration(certificate_type, expected, got)));
        }
        let icn = match issuer_cn {
            None => return Some(Err(CertificateParseError::MissingCommonName)),
            Some(Err(e)) => return Some(Err(CertificateParseError::X509Error(e))),
            Some(Ok(icn)) => icn,
        };
        let issuer = match parse_issuer_bytes(icn.as_str().as_bytes()) {
            None => return None,
            Some(None) => return Some(Err(CertificateParseError::InvalidIssuer(icn))),
            Some(Some(issuer)) => issuer,
        };
        if self_issued {
            if certificate_type != CertificateType::Root && certificate_type != CertificateType::Temporary {
                return Some(Err(CertificateParseError::SelfSignedNotRootOrTemp));
            }
        }
        if is_ca != certificate_type.should_be_ca() {
            if is_ca {
                return Some(Err(CertificateParseError::ShouldNotBeCa(certificate_type)));
            } else {
                return Some(Err(CertificateParseError::ShouldBeCa(certificate_type)));
            }
        }
        let cert = UnverifiedCertificate {
            der,
            certificate_type,
            public_key,
            spki_hash,
            is_ca,
            issuer,
            not_before,
            not_after,
        };
        Some(Ok(cert))
    }

    /// Reads a DER certificate and checks it against the svalin conventions:
    /// the subject common name is the upper-case hex SPKI hash, the subject
    /// organizational unit names the certificate type, the validity span is
    /// exactly the type's, the issuer common name is the issuer's SPKI hash in
    /// hex, only roots and temporary certificates are self-issued, and the CA
    /// flag matches the type.
    pub fn from_der(der: Vec<u8>) -> (r: Result<UnverifiedCertificate, CertificateParseError>)
        requires
            spec_from_der(der@) != DerOutcome::Panics,
        ensures
            match spec_from_der(der@) {
                DerOutcome::Invalid(kind) => r is Err && parse_error_kind(r->Err_0) == kind,
                DerOutcome::Valid(v) => r is Ok && r->Ok_0@ == v,
                DerOutcome::Panics => false,
            },
            r is Ok ==> r->Ok_0@.not_after - r->Ok_0@.not_before == spec_validity_secs(r->Ok_0@.certificate_type),
            r matches Ok(c) ==> {
                &&& x509_names(der@).3 ==> c@.certificate_type == CertificateType::Root || c@.certificate_type
                    == CertificateType::Temporary
                &&& c@.is_ca <==> (c@.certificate_type == CertificateType::Root || c@.certificate_type
                    == CertificateType::User)
                &&& c@.spki_hash == sha512_256(x509_key_info(der@).0)
                &&& x509_names(der@).0 matches Some(Ok(cn)) && utf8(cn) == ascii_bytes(hex_upper(c@.spki_hash))
                &&& x509_names(der@).1 matches Some(Ok(ou)) && utf8(ou) == ascii_bytes(spec_type_name(c@.certificate_type))
            },
    {
        match Self::try_from_der(der) {
            Some(r) => r,
            None => {
                assert(false);
                Err(CertificateParseError::BrokenValidity)
            },
        }
    }

    /// Marks the certificate as trusted without checking its signature.
    pub fn mark_as_trusted(self) -> (r: Certificate)
        ensures
            r@ == self@,
    {
        Certificate(self)
    }

    /// The certificate as a trusted temporary certificate, if it is one.
    pub fn use_as_temporary(self) -> (r: Option<Certificate>)
        ensures
            self@.certificate_type == CertificateType::Temporary <==> r is Some,
            r is Some ==> r->0@ == self@,
    {
        if self.certificate_type != CertificateType::Temporary {
            None
        } else {
            Some(Certificate(self))
        }
    }

    /// The certificate as the root of trust, if it is a root certificate.
    pub fn use_as_root(self) -> (r: Result<RootCertificate, UseAsRootError>)
        ensures
            self@.certificate_type == CertificateType::Root <==> r is Ok,
            r is Ok ==> r->Ok_0@ == self@,
    {
        if self.certificate_type == CertificateType::Root {
            Ok(RootCertificate(Certificate(self)))
        } else {
            Err(UseAsRootError::InvalidCertificateType)
        }
    }

    /// The DER encoding; the certificate is what reading it gives.
    pub fn as_der(&self) -> (r: &[u8])
        ensures
            r@ == self@.der,
            spec_from_der(r@) == DerOutcome::Valid(self@),
    {
        proof {
            use_type_invariant(self);
        }
        self.der.as_slice()
    }

    /// The subject public key bytes.
    pub fn public_key(&self) -> (r: &[u8])
        ensures
            r@ == self@.public_key,
    {
        self.public_key.as_slice()
    }

    /// The SPKI hash of the issuer, as named in the certificate.
    pub fn issuer(&self) -> (r: &SpkiHash)
        ensures
            r@ == self@.issuer,
    {
        &self.issuer
    }

    /// The SPKI hash of this certificate's key.
    pub fn spki_hash(&self) -> (r: &SpkiHash)
        ensures
            r@ == self@.spki_hash,
    {
        &self.spki_hash
    }

    /// Whether the certificate is a CA.
    pub fn is_ca(&self) -> (r: bool)
        ensures
            r == self@.is_ca,
    {
        self.is_ca
    }

    /// The certificate's type.
    pub fn certificate_type(&self) -> (r: CertificateType)
        ensures
            r == self@.certificate_type,
    {
        self.certificate_type
    }

    /// Start of the validity period (Unix seconds).
    pub fn not_before(&self) -> (r: i64)
        ensures
            r == self@.not_before,
    {
        self.not_before
    }

    /// End of the validity period (Unix seconds).
    pub fn not_after(&self) -> (r: i64)
        ensures
            r == self@.not_after,
    {
        self.not_after
    }

    /// Checks that `time` lies within the validity period.
    pub fn check_validity_at(&self, time: u64) -> (r: Result<(), ValidityError>)
        requires
            validity_defined(self@, time),
        ensures
            r == spec_validity_at(self@, time),
            r is Ok <==> (self@.not_before <= time && time <= self@.not_after),
            time < self@.not_before ==> r == Err::<(), ValidityError>(ValidityError::NotYetValid),
            self@.not_before <= time && time > self@.not_after ==> r == Err::<(), ValidityError>(ValidityError::Expired),
    {
        if (time as i128) < (self.not_before as i128) {
            Err(ValidityError::NotYetValid)
        } else if (time as i128) > (self.not_after as i128) {
            Err(ValidityError::Expired)
        } else {
            Ok(())
        }
    }

    /// Whether two certificates have the same DER encoding.
    pub fn same_der(&self, other: &UnverifiedCertificate) -> (r: bool)
        ensures
            r == (self@.der == other@.der),
    {
        bytes_eq(self.der.as_slice(), other.der.as_slice())
    }

    /// A copy of the certificate.
    pub fn duplicate(&self) -> (r: UnverifiedCertificate)
        ensures
            r@ == self@,
    {
        proof {
            use_type_invariant(self);
        }
        let der = self.der.clone();
        let public_key = self.public_key.clone();
        assert(der@ =~= self.der@);
        assert(public_key@ =~= self.public_key@);
        UnverifiedCertificate {
            der,
            certificate_type: self.certificate_type,
            public_key,
            spki_hash: self.spki_hash,
            is_ca: self.is_ca,
            issuer: self.issuer,
            not_before: self.not_before,
            not_after: self.not_after,
        }
    }

    /// Verifies this certificate's signature with the key of `issuer`, after
    /// checking that the issuer's type may sign this type, and then checks the
    /// validity period at `time`.
    pub fn verify_signature(self, issuer: &Certificate, time: u64) -> (r: Result<Certificate, SignatureVerificationError>)
        requires
            spec_may_be_parent_of(issuer@.certificate_type, self@.certificate_type)
                && x509_signature_valid(self@.der, issuer@.der) ==> validity_defined(self@, time),
        ensures
            spec_signature_accepts(self@, issuer@, time) <==> r is Ok,
            r is Ok ==> r->Ok_0@ == self@,
            r is Err ==> verify_error_matches(self@, issuer@, time, r->Err_0),
            r is Ok <==> (spec_may_be_parent_of(issuer@.certificate_type, self@.certificate_type)
                && x509_signature_valid(self@.der, issuer@.der) && self@.not_before <= time && time <= self@.not_after),
            !spec_may_be_parent_of(issuer@.certificate_type, self@.certificate_type) ==> (r matches Err(
                SignatureVerificationError::InvalidCertificateType(a, b),
            ) && a == issuer@.certificate_type && b == self@.certificate_type),
            spec_may_be_parent_of(issuer@.certificate_type, self@.certificate_type) && !x509_signature_valid(
                self@.der,
                issuer@.der,
            ) ==> (r matches Err(SignatureVerificationError::X509VerificationError(_))),
            spec_may_be_parent_of(issuer@.certificate_type, self@.certificate_type) && x509_signature_valid(
                self@.der,
                issuer@.der,
            ) && time < self@.not_before ==> (r matches Err(SignatureVerificationError::ValidityError(ValidityError::NotYetValid))),
            spec_may_be_parent_of(issuer@.certificate_type, self@.certificate_type) && x509_signature_valid(
                self@.der,
                issuer@.der,
            ) && self@.not_before <= time && time > self@.not_after ==> (r matches Err(
                SignatureVerificationError::ValidityError(ValidityError::Expired),
            )),
    {
        let it = issuer.certificate_type();
        let st = self.certificate_type;
        if !it.may_be_parent_of(st) {
            return Err(SignatureVerificationError::InvalidCertificateType(it, st));
        }
        proof {
            use_type_invariant(&self);
            use_type_invariant(&issuer.0);
        }
        match x509_verify_signature(self.der.as_slice(), issuer.as_der()) {
            Err(e) => return Err(SignatureVerificationError::X509VerificationError(e)),
            Ok(()) => {},
        }
        match self.check_validity_at(time) {
            Err(e) => return Err(SignatureVerificationError::ValidityError(e)),
            Ok(()) => {},
        }
        Ok(Certificate(self))
    }

    /// Verifies like `verify_signature` where the validity period can be
    /// checked at `time` (its bounds are not before the epoch); `None`, with
    /// nothing verified, where it cannot.
    pub fn try_verify_signature(self, issuer: &Certificate, time: u64) -> (r: Option<Result<Certificate, SignatureVerificationError>>)
        ensures
            !validity_defined(self@, time) <==> r is None,
            r matches Some(v) ==> (spec_signature_accepts(self@, issuer@, time) <==> v is Ok),
            r matches Some(Ok(c)) ==> c@ == self@,
            r matches Some(Err(e)) ==> verify_error_matches(self@, issuer@, time, e),
    {
        let not_before = self.not_before();
        let not_after = self.not_after();
        if not_before < 0 || ((time as i128) >= (not_before as i128) && not_after < 0) {
            return None;
        }
        Some(self.verify_signature(issuer, time))
    }
}

/// Whether `e` is the error that verifying `subject` against `issuer` at
/// `time` reports: the first check that fails decides it (the type rule, then
/// the signature, then the validity period).
pub open spec fn verify_error_matches(subject: CertView, issuer: CertView, time: u64, e: SignatureVerificationError) -> bool {
    if !spec_may_be_parent_of(issuer.certificate_type, subject.certificate_type) {
        e == SignatureVerificationError::InvalidCertificateType(issuer.certificate_type, subject.certificate_type)
    } else if !x509_signature_valid(subject.der, issuer.der) {
        e is X509VerificationError
    } else {
        match spec_validity_at(subject, time) {
            Err(v) => e == SignatureVerificationError::ValidityError(v),
            Ok(()) => false,
        }
    }
}

/// Whether the signature check of `subject` against `issuer` succeeds at `time`.
pub open spec fn spec_signature_accepts(subject: CertView, issuer: CertView, time: u64) -> bool {
    &&& spec_may_be_parent_of(issuer.certificate_type, subject.certificate_type)
    &&& x509_signature_valid(subject.der, issuer.der)
    &&& spec_validity_at(subject, time) is Ok
}

/// Compares two byte strings.
pub fn bytes_eq(a: &[u8], b: &[u8]) -> (r: bool)
    ensures
        r == (a@ == b@),
{
    if a.len() != b.len() {
        return false;
    }
    let mut i: usize = 0;
    while i < a.len()
        invariant
            a@.len() == b@.len(),
            i <= a@.len(),
            forall|j: int| 0 <= j < i ==> a@[j] == b@[j],
        decreases a@.len() - i,
    {
        if a[i] != b[i] {
            return false;
        }
        i = i + 1;
    }
    assert(a@ =~= b@);
    true
}

fn char_boundary_at(b: &[u8], i: usize) -> (r: bool)
    ensures
        r == char_boundary(b@, i as int),
{
    i == 0 || i == b.len() || (i < b.len() && (b[i] < 128 || b[i] >= 192))
}

fn radix16_pair_of(b0: u8, b1: u8) -> (r: Option<u8>)
    ensures
        r == radix16_pair(b0, b1),
{
    if b0 == 43 {
        crate::hex::hex_value_of(b1)
    } else {
        match (crate::hex::hex_value_of(b0), crate::hex::hex_value_of(b1)) {
            (Some(h), Some(l)) => Some(h * 16 + l),
            _ => None,
        }
    }
}

/// Reads the issuer SPKI hash from the bytes of the issuer common name:
/// `None` where slicing the text by bytes would panic, `Some(None)` for an invalid name.
fn parse_issuer_bytes(b: &[u8]) -> (r: Option<Option<SpkiHash>>)
    ensures
        match parse_issuer(b@) {
            IssuerParse::Panics => r is None,
            IssuerParse::Invalid => r == Some(None::<SpkiHash>),
            IssuerParse::Parsed(v) => r is Some && r->0 is Some && r->0->0@ == v,
        },
{
    if b.len() != 64 {
        return Some(None);
    }
    let mut out = [0u8; 32];
    let mut i: usize = 0;
    let ghost mut acc: Seq<u8> = seq![];
    while i < 32
        invariant
            b@.len() == 64,
            i <= 32,
            out@.len() == 32,
            acc.len() == i,
            forall|j: int| 0 <= j < i ==> out@[j] == acc[j],
            parse_issuer(b@) == parse_issuer_from(b@, i as nat, acc),
        decreases 32 - i,
    {
        if !char_boundary_at(b, 2 * i) || !char_boundary_at(b, 2 * i + 2) {
            return None;
        }
        match radix16_pair_of(b[2 * i], b[2 * i + 1]) {
            None => return Some(None),
            Some(v) => {
                out[i] = v;
                proof {
                    acc = acc.push(v);
                }
            },
        }
        i = i + 1;
    }
    assert(out@ =~= acc);
    Some(Some(SpkiHash(out)))
}

/// A certificate whose signature chain has been checked (or which was
/// deliberately marked as trusted).
#[derive(Debug)]
pub struct Certificate(UnverifiedCertificate);

impl View for Certificate {
    type V = CertView;

    closed spec fn view(&self) -> CertView {
        self.0@
    }
}

impl Certificate {
    pub fn as_unverified(&self) -> (r: &UnverifiedCertificate)
        ensures
            r@ == self@,
    {
        &self.0
    }

    pub fn to_unverified(self) -> (r: UnverifiedCertificate)
        ensures
            r@ == self@,
    {
        self.0
    }

    pub fn as_der(&self) -> (r: &[u8])
        ensures
            r@ == self@.der,
            spec_from_der(r@) == DerOutcome::Valid(self@),
    {
        self.0.as_der()
    }

    pub fn public_key(&self) -> (r: &[u8])
        ensures
            r@ == self@.public_key,
    {
        self.0.public_key()
    }

    pub fn issuer(&self) -> (r: &SpkiHash)
        ensures
            r@ == self@.issuer,
    {
        self.0.issuer()
    }

    pub fn spki_hash(&self) -> (r: &SpkiHash)
        ensures
            r@ == self@.spki_hash,
    {
        self.0.spki_hash()
    }

    pub fn is_ca(&self) -> (r: bool)
        ensures
            r == self@.is_ca,
    {
        self.0.is_ca()
    }

    pub fn certificate_type(&self) -> (r: CertificateType)
        ensures
            r == self@.certificate_type,
    {
        self.0.certificate_type()
    }

    pub fn check_validity_at(&self, time: u64) -> (r: Result<(), ValidityError>)
        requires
            validity_defined(self@, time),
        ensures
            r == spec_validity_at(self@, time),
            r is Ok <==> (self@.not_before <= time && time <= self@.not_after),
            time < self@.not_before ==> r == Err::<(), ValidityError>(ValidityError::NotYetValid),
            self@.not_before <= time && time > self@.not_after ==> r == Err::<(), ValidityError>(ValidityError::Expired),
    {
        self.0.check_validity_at(time)
    }

    pub fn duplicate(&self) -> (r: Certificate)
        ensures
            r@ == self@,
    {
        Certificate(self.0.duplicate())
    }

    /// Reads a DER certificate that was already verified elsewhere and marks it as trusted.
    pub fn dangerous_from_already_verified_der(der: Vec<u8>) -> (r: Result<Certificate, CertificateParseError>)
        requires
            spec_from_der(der@) != DerOutcome::Panics,
        ensures
            match spec_from_der(der@) {
                DerOutcome::Invalid(kind) => r is Err && parse_error_kind(r->Err_0) == kind,
                DerOutcome::Valid(v) => r is Ok && r->Ok_0@ == v,
                DerOutcome::Panics => false,
            },
    {
        match UnverifiedCertificate::from_der(der) {
            Ok(c) => Ok(c.mark_as_trusted()),
            Err(e) => Err(e),
        }
    }
}

/// The root certificate of a trust hierarchy.
#[derive(Debug)]
pub struct RootCertificate(Certificate);

impl View for RootCertificate {
    type V = CertView;

    closed spec fn view(&self) -> CertView {
        self.0@
    }
}

impl RootCertificate {
    #[verifier::type_invariant]
    closed spec fn inv(self) -> bool {
        self.0@.certificate_type == CertificateType::Root
    }

    /// The root as a certificate; it is of type root.
    pub fn as_certificate(&self) -> (r: &Certificate)
        ensures
            r@ == self@,
            r@.certificate_type == CertificateType::Root,
    {
        proof {
            use_type_invariant(self);
        }
        &self.0
    }

    pub fn to_certificate(self) -> (r: Certificate)
        ensures
            r@ == self@,
    {
        self.0
    }

    pub fn as_unverified(&self) -> (r: &UnverifiedCertificate)
        ensures
            r@ == self@,
    {
        self.0.as_unverified()
    }

    pub fn to_unverified(self) -> (r: UnverifiedCertificate)
        ensures
            r@ == self@,
    {
        self.0.to_unverified()
    }

    pub fn spki_hash(&self) -> (r: &SpkiHash)
        ensures
            r@ == self@.spki_hash,
    {
        self.0.spki_hash()
    }

    pub fn as_der(&self) -> (r: &[u8])
        ensures
            r@ == self@.der,
            spec_from_der(r@) == DerOutcome::Valid(self@),
    {
        self.0.as_der()
    }

    pub fn duplicate(&self) -> (r: RootCertificate)
        ensures
            r@ == self@,
    {
        proof {
            use_type_invariant(self);
        }
        RootCertificate(self.0.duplicate())
    }
}

impl PartialEq for UnverifiedCertificate {
    fn eq(&self, other: &UnverifiedCertificate) -> (r: bool) {
        bytes_eq(self.as_der(), other.as_der())
    }
}

impl PartialEqSpecImpl for UnverifiedCertificate {
    open spec fn obeys_eq_spec() -> bool {
        true
    }

    /// Certificates are equal when their DER encodings are.
    open spec fn eq_spec(&self, other: &UnverifiedCertificate) -> bool {
        self@.der == other@.der
    }
}

impl PartialEq<Certificate> for UnverifiedCertificate {
    fn eq(&self, other: &Certificate) -> (r: bool) {
        bytes_eq(self.as_der(), other.as_der())
    }
}

impl PartialEqSpecImpl<Certificate> for UnverifiedCertificate {
    open spec fn obeys_eq_spec() -> bool {
        true
    }

    /// Certificates are equal when their DER encodings are.
    open spec fn eq_spec(&self, other: &Certificate) -> bool {
        self@.der == other@.der
    }
}

impl PartialEq<UnverifiedCertificate> for Certificate {
    fn eq(&self, other: &UnverifiedCertificate) -> (r: bool) {
        bytes_eq(self.as_der(), other.as_der())
    }
}

impl PartialEqSpecImpl<UnverifiedCertificate> for Certificate {
    open spec fn obeys_eq_spec() -> bool {
        true
    }

    /// Certificates are equal when their DER encodings are.
    open spec fn eq_spec(&self, other: &UnverifiedCertificate) -> bool {
        self@.der == other@.der
    }
}

impl PartialEq for Certificate {
    fn eq(&self, other: &Certificate) -> (r: bool) {
        bytes_eq(self.as_der(), other.as_der())
    }
}

impl PartialEqSpecImpl for Certificate {
    open spec fn obeys_eq_spec() -> bool {
        true
    }

    /// Certificates are equal when their DER encodings are.
    open spec fn eq_spec(&self, other: &Certificate) -> bool {
        self@.der == other@.der
    }
}

impl PartialEq<RootCertificate> for UnverifiedCertificate {
    fn eq(&self, other: &RootCertificate) -> (r: bool) {
        bytes_eq(self.as_der(), other.as_der())
    }
}

impl PartialEqSpecImpl<RootCertificate> for UnverifiedCertificate {
    open spec fn obeys_eq_spec() -> bool {
        true
    }

    /// Certificates are equal when their DER encodings are.
    open spec fn eq_spec(&self, other: &RootCertificate) -> bool {
        self@.der == other@.der
    }
}

impl PartialEq<UnverifiedCertificate> for RootCertificate {
    fn eq(&self, other: &UnverifiedCertificate) -> (r: bool) {
        bytes_eq(self.as_der(), other.as_der())
    }
}

impl PartialEqSpecImpl<UnverifiedCertificate> for RootCertificate {
    open spec fn obeys_eq_spec() -> bool {
        true
    }

    /// Certificates are equal when their DER encodings are.
    open spec fn eq_spec(&self, other: &UnverifiedCertificate) -> bool {
        self@.der == other@.der
    }
}

impl PartialEq<Certificate> for RootCertificate {
    fn eq(&self, other: &Certificate) -> (r: bool) {
        bytes_eq(self.as_der(), other.as_der())
    }
}

impl PartialEqSpecImpl<Certificate> for RootCertificate {
    open spec fn obeys_eq_spec() -> bool {
        true
    }

    /// Certificates are equal when their DER encodings are.
    open spec fn eq_spec(&self, other: &Certificate) -> bool {
        self@.der == other@.der
    }
}

impl PartialEq<RootCertificate> for Certificate {
    fn eq(&self, other: &RootCertificate) -> (r: bool) {
        bytes_eq(self.as_der(), other.as_der())
    }
}

impl PartialEqSpecImpl<RootCertificate> for Certificate {
    open spec fn obeys_eq_spec() -> bool {
        true
    }

    /// Certificates are equal when their DER encodings are.
    open spec fn eq_spec(&self, other: &RootCertificate) -> bool {
        self@.der == other@.der
    }
}

} // verus!
