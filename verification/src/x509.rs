//! What the library reads from an X.509 certificate, extracted by
//! `x509-parser`. Each reader takes the DER bytes of a certificate and returns
//! plain values; the validation logic that uses them is in `certificate`.

use vstd::prelude::*;

use x509_parser::certificate::X509Certificate;
use x509_parser::error::X509Error;
use x509_parser::oid_registry::asn1_rs::FromDer;

verus! {

#[verifier::external_type_specification]
#[verifier::external_body]
pub struct ExX509Error(X509Error);

#[verifier::external_type_specification]
#[verifier::external_body]
#[verifier::reject_recursive_types(E)]
pub struct ExNomErr<E>(x509_parser::nom::Err<E>);

/// Text of a name attribute as the library sees it: absent, not a string
/// type, or the string's characters.
pub open spec fn text_field(f: Option<Result<String, X509Error>>) -> Option<Result<Seq<char>, X509Error>> {
    match f {
        None => None,
        Some(Ok(s)) => Some(Ok(s@)),
        Some(Err(e)) => Some(Err(e)),
    }
}

/// Whether `X509Certificate::from_der` accepts `der`.
pub uninterp spec fn x509_parses(der: Seq<u8>) -> bool;

/// Of the certificate in `der`: the raw DER of its SubjectPublicKeyInfo, the
/// bytes of its subject public key, and whether its basic constraints mark it
/// as a CA.
pub uninterp spec fn x509_key_info(der: Seq<u8>) -> (Seq<u8>, Seq<u8>, bool);

/// Of the certificate in `der`: its first subject common name, its first
/// subject organizational unit, its first issuer common name (each as text),
/// whether issuer and subject names are equal, and how many common names the
/// subject has.
pub uninterp spec fn x509_names(der: Seq<u8>) -> (
    Option<Result<Seq<char>, X509Error>>,
    Option<Result<Seq<char>, X509Error>>,
    Option<Result<Seq<char>, X509Error>>,
    bool,
    nat,
);

/// Of the certificate in `der`: `not_after - not_before` as whole seconds and
/// nanoseconds (`None` unless `not_after` is later), and the two bounds as Unix
/// timestamps.
pub uninterp spec fn x509_validity(der: Seq<u8>) -> (Option<(i64, i32)>, i64, i64);

/// Whether the signature of the certificate in `der` verifies under the
/// public key of the certificate in `issuer_der`.
pub uninterp spec fn x509_signature_valid(der: Seq<u8>, issuer_der: Seq<u8>) -> bool;

/// Calls `X509Certificate::from_der` and keeps only whether it succeeded.
/// Trusted: success is a function of `der`, named `x509_parses`.
#[verifier::external_body]
pub(crate) fn x509_check(der: &[u8]) -> (r: Result<(), x509_parser::nom::Err<X509Error>>)
    ensures
        r is Ok <==> x509_parses(der@),
{
    X509Certificate::from_der(der).map(|_| ())
}

/// Parses `der` (which `x509_check` accepted) and reads
/// `public_key().raw`, `public_key().subject_public_key` and `is_ca()`.
/// Trusted: the triple is a function of `der`, named `x509_key_info`.
#[verifier::external_body]
pub(crate) fn x509_key_info_of(der: &[u8]) -> (r: (Vec<u8>, Vec<u8>, bool))
    requires
        x509_parses(der@),
    ensures
        (r.0@, r.1@, r.2) == x509_key_info(der@),
{
    let (_, cert) = X509Certificate::from_der(der).unwrap();
    let spki = cert.public_key();
    (spki.raw.to_vec(), spki.subject_public_key.as_ref().to_vec(), cert.is_ca())
}

/// Parses `der` (which `x509_check` accepted) and reads the first common name
/// and organizational unit of the subject and the first common name of the
/// issuer with `as_str()`, compares `issuer()` with `subject()`, and counts
/// the subject's common names. Trusted: the result is a function of `der`,
/// named `x509_names`.
#[verifier::external_body]
pub(crate) fn x509_names_of(der: &[u8]) -> (r: (
    Option<Result<String, X509Error>>,
    Option<Result<String, X509Error>>,
    Option<Result<String, X509Error>>,
    bool,
    usize,
))
    requires
        x509_parses(der@),
    ensures
        (text_field(r.0), text_field(r.1), text_field(r.2), r.3, r.4 as nat) == x509_names(der@),
{
    let (_, cert) = X509Certificate::from_der(der).unwrap();
    let (subject, issuer) = (cert.subject(), cert.issuer());
    let names = (
        subject.iter_common_name().next().map(|a| a.as_str().map(|s| s.to_string())),
        subject.iter_organizational_unit().next().map(|a| a.as_str().map(|s| s.to_string())),
        issuer.iter_common_name().next().map(|a| a.as_str().map(|s| s.to_string())),
        issuer == subject,
        subject.iter_common_name().count(),
    );
    names
}

/// Parses `der` (which `x509_check` accepted) and reads its validity:
/// `not_after - not_before` and both bounds' `timestamp()`.
/// Trusted: the result is a function of `der`, named `x509_validity`; and
/// where the span has no fraction of a second, its whole seconds are the
/// difference of the two timestamps (`timestamp()` counts whole seconds since
/// the epoch, rounding down, and the two bounds then have the same fraction).
#[verifier::external_body]
pub(crate) fn x509_validity_of(der: &[u8]) -> (r: (Option<(i64, i32)>, i64, i64))
    requires
        x509_parses(der@),
    ensures
        r == x509_validity(der@),
        r.0 matches Some((secs, 0i32)) ==> secs == r.2 - r.1,
{
    let (_, cert) = X509Certificate::from_der(der).unwrap();
    let v = cert.validity();
    let span = (v.not_after - v.not_before).map(|d| (d.whole_seconds(), d.subsec_nanoseconds()));
    (span, v.not_before.timestamp(), v.not_after.timestamp())
}

/// Parses both certificates and calls `verify_signature` on the first with
/// the public key of the second. Trusted: success is a function of both
/// encodings, named `x509_signature_valid`.
#[verifier::external_body]
pub(crate) fn x509_verify_signature(der: &[u8], issuer_der: &[u8]) -> (r: Result<(), X509Error>)
    requires
        x509_parses(der@),
        x509_parses(issuer_der@),
    ensures
        r is Ok <==> x509_signature_valid(der@, issuer_der@),
{
    let (_, cert) = X509Certificate::from_der(der).unwrap();
    let (_, issuer) = X509Certificate::from_der(issuer_der).unwrap();
    cert.verify_signature(Some(issuer.public_key()))
}

} // verus!
