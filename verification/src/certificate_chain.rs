//! Certificate chains: collecting a chain from a leaf up to the root one
//! parent at a time, and verifying a collected chain from the root down.

use vstd::prelude::*;

use crate::certificate::{
    spec_signature_accepts, validity_defined, verify_error_matches, CertView, Certificate,
    RootCertificate, SignatureVerificationError, UnverifiedCertificate, ValidityError,
};
use crate::certificate_type::{spec_may_be_parent_of, CertificateType};
use crate::hex::hex_upper;
use crate::x509::x509_signature_valid;

verus! {

/// The views of a list of certificates.
pub open spec fn cert_views(v: Seq<UnverifiedCertificate>) -> Seq<CertView> {
    v.map_values(|c: UnverifiedCertificate| c@)
}

/// The views of a list of trusted certificates.
pub open spec fn trusted_views(v: Seq<Certificate>) -> Seq<CertView> {
    v.map_values(|c: Certificate| c@)
}

/// Whether some certificate of `certs` has SPKI hash `h`.
pub open spec fn has_spki_hash(certs: Seq<CertView>, h: Seq<u8>) -> bool {
    exists|i: int| 0 <= i < certs.len() && #[trigger] certs[i].spki_hash == h
}

/// A partial chain from a leaf upwards: non-empty, each certificate names the
/// next as its issuer, no key occurs twice, and only the last may be a root.
pub open spec fn chain_linked(certs: Seq<CertView>) -> bool {
    &&& certs.len() > 0
    &&& forall|i: int| 0 <= i < certs.len() - 1 ==> #[trigger] certs[i].issuer == certs[i + 1].spki_hash
    &&& forall|i: int, j: int| 0 <= i < j < certs.len() ==> #[trigger] certs[i].spki_hash != #[trigger] certs[j].spki_hash
    &&& forall|i: int| 0 <= i < certs.len() - 1 ==> #[trigger] certs[i].certificate_type != CertificateType::Root
}

/// Builds a certificate chain from a leaf towards the root.
pub struct CertificateChainBuilder {
    certificates: Vec<UnverifiedCertificate>,
}

/// Why a parent could not be added to a chain.
#[derive(Debug)]
pub enum AddCertificateError {
    SignatureLoop(Vec<UnverifiedCertificate>),
    SignatureVerificationError(SignatureVerificationError),
    /// The SPKI hash of the expected parent (the issuer of the current top of
    /// the chain) and that of the offered parent.
    WrongParent(String, String),
    AlreadyFinished,
}

impl View for CertificateChainBuilder {
    type V = Seq<CertView>;

    closed spec fn view(&self) -> Seq<CertView> {
        cert_views(self.certificates@)
    }
}

impl CertificateChainBuilder {
    /// A chain under construction runs from the leaf upwards: each
    /// certificate is issued by the next, and no SPKI hash occurs twice.
    pub open spec fn wf(&self) -> bool {
        chain_linked(self@)
    }

    /// Starts a chain at `leaf_certificate`.
    pub fn new(leaf_certificate: UnverifiedCertificate) -> (r: CertificateChainBuilder)
        ensures
            r.wf(),
            r@ == seq![leaf_certificate@],
    {
        let certificates = vec![leaf_certificate];
        let r = CertificateChainBuilder { certificates };
        assert(r@ =~= seq![leaf_certificate@]);
        r
    }

    fn last(&self) -> (r: &UnverifiedCertificate)
        requires
            self.wf(),
        ensures
            r@ == self@.last(),
    {
        &self.certificates[self.certificates.len() - 1]
    }

    /// Adds the issuer of the current top certificate.
    pub fn push_parent(&mut self, parent: UnverifiedCertificate) -> (r: Result<(), AddCertificateError>)
        requires
            old(self).wf(),
        ensures
            final(self).wf(),
            old(self)@.last().certificate_type == CertificateType::Root ==> r matches Err(AddCertificateError::AlreadyFinished),
            old(self)@.last().certificate_type != CertificateType::Root && old(self)@.last().issuer != parent@.spki_hash
                ==> (r matches Err(AddCertificateError::WrongParent(a, b)) && a@ == hex_upper(old(self)@.last().issuer)
                    && b@ == hex_upper(parent@.spki_hash)),
            old(self)@.last().certificate_type != CertificateType::Root && old(self)@.last().issuer == parent@.spki_hash
                && has_spki_hash(old(self)@, parent@.spki_hash)
                ==> (r matches Err(AddCertificateError::SignatureLoop(v)) && cert_views(v@) == old(self)@.push(parent@)),
            old(self)@.last().certificate_type != CertificateType::Root && old(self)@.last().issuer == parent@.spki_hash
                && !has_spki_hash(old(self)@, parent@.spki_hash) ==> r is Ok,
            r is Ok ==> final(self)@ == old(self)@.push(parent@),
            r is Err ==> final(self)@ == old(self)@,
    {
        let last = self.last();
        if last.certificate_type() == CertificateType::Root {
            return Err(AddCertificateError::AlreadyFinished);
        }
        if *last.issuer() != *parent.spki_hash() {
            return Err(AddCertificateError::WrongParent(last.issuer().to_hex(), parent.spki_hash().to_hex()));
        }
        let n = self.certificates.len();
        let mut i: usize = 0;
        while i < n
            invariant
                n == self.certificates@.len(),
                self@ == old(self)@,
                chain_linked(old(self)@),
                old(self)@.last().certificate_type != CertificateType::Root,
                old(self)@.last().issuer == parent@.spki_hash,
                i <= n,
                forall|j: int| 0 <= j < i ==> self@[j].spki_hash != parent@.spki_hash,
            decreases n - i,
        {
            if *self.certificates[i].spki_hash() == *parent.spki_hash() {
                let mut order: Vec<UnverifiedCertificate> = Vec::new();
                let mut k: usize = 0;
                while k < n
                    invariant
                        n == self.certificates@.len(),
                        self@ == old(self)@,
                        chain_linked(old(self)@),
                        old(self)@.last().certificate_type != CertificateType::Root,
                        old(self)@.last().issuer == parent@.spki_hash,
                        i < n,
                        self@[i as int].spki_hash == parent@.spki_hash,
                        k <= n,
                        order@.len() == k,
                        forall|j: int| 0 <= j < k ==> #[trigger] order@[j]@ == self.certificates@[j]@,
                    decreases n - k,
                {
                    order.push(self.certificates[k].duplicate());
                    k = k + 1;
                }
                order.push(parent);
                assert(cert_views(order@) =~= old(self)@.push(parent@));
                return Err(AddCertificateError::SignatureLoop(order));
            }
            i = i + 1;
        }
        self.certificates.push(parent);
        assert(self@ =~= old(self)@.push(parent@));
        Ok(())
    }

    /// The SPKI hash of the next certificate needed, or `None` once the root is reached.
    pub fn requested_issuer(&self) -> (r: Option<&crate::spki_hash::SpkiHash>)
        requires
            self.wf(),
        ensures
            self@.last().certificate_type == CertificateType::Root <==> r is None,
            r is Some ==> r->0@ == self@.last().issuer,
    {
        let last = self.last();
        if last.certificate_type() == CertificateType::Root {
            None
        } else {
            Some(last.issuer())
        }
    }

    /// Whether the chain has reached a root certificate.
    pub fn is_finished(&self) -> (r: bool)
        requires
            self.wf(),
        ensures
            r == (self@.last().certificate_type == CertificateType::Root),
    {
        self.last().certificate_type() == CertificateType::Root
    }

    /// The collected chain, ordered from the root down to the leaf, once finished.
    pub fn finish(self) -> (r: Result<UnverifiedCertificateChain, ()>)
        requires
            self.wf(),
        ensures
            (self@.last().certificate_type == CertificateType::Root) <==> r is Ok,
            r is Ok ==> r->Ok_0@ == self@.reverse(),
    {
        if self.is_finished() {
            let n = self.certificates.len();
            let mut out: Vec<UnverifiedCertificate> = Vec::new();
            let mut i: usize = n;
            while i > 0
                invariant
                    n == self.certificates@.len(),
                    i <= n,
                    out@.len() == n - i,
                    forall|j: int| 0 <= j < n - i ==> #[trigger] out@[j]@ == self.certificates@[n - 1 - j]@,
                decreases i,
            {
                i = i - 1;
                out.push(self.certificates[i].duplicate());
            }
            assert(cert_views(out@) =~= self@.reverse());
            Ok(UnverifiedCertificateChain { certificates: out })
        } else {
            Err(())
        }
    }
}

/// A chain ordered from the root down to the leaf, not yet verified.
pub struct UnverifiedCertificateChain {
    certificates: Vec<UnverifiedCertificate>,
}

impl View for UnverifiedCertificateChain {
    type V = Seq<CertView>;

    closed spec fn view(&self) -> Seq<CertView> {
        cert_views(self.certificates@)
    }
}

/// A verified chain: a root and the certificates below it, each verified
/// with the one above it.
pub struct CertificateChain {
    _root: RootCertificate,
    certificates: Vec<Certificate>,
}

impl CertificateChain {
    pub closed spec fn root(&self) -> CertView {
        self._root@
    }

    pub closed spec fn certificates(&self) -> Seq<CertView> {
        trusted_views(self.certificates@)
    }

    /// The leaf certificate: the last one below the root, or the root itself
    /// for a chain that is only the root.
    pub fn take_leaf(self) -> (r: Certificate)
        ensures
            self.certificates().len() > 0 ==> r@ == self.certificates().last(),
            self.certificates().len() == 0 ==> r@ == self.root(),
    {
        let mut certificates = self.certificates;
        match certificates.pop() {
            Some(c) => c,
            None => self._root.to_certificate(),
        }
    }
}

/// Why a chain did not verify.
#[derive(Debug)]
pub enum VerifyChainError {
    EmptyChain,
    WrongRoot(RootCertificate, UnverifiedCertificate),
    SignatureVerificationFailed(SignatureVerificationError),
    ValidityError(ValidityError),
}

/// Whether every certificate of `certs` from index 1 up to (not including) `k`
/// verifies against the one before it at `time`.
pub open spec fn accepted_below(certs: Seq<CertView>, k: int, time: u64) -> bool {
    forall|j: int| 1 <= j < k ==> #[trigger] spec_signature_accepts(certs[j], certs[j - 1], time)
}

#[verifier::opaque]
/// Whether verifying the chain `certs` at `time` checks validity periods only
/// where they are defined (the checks stop at the first failure).
pub open spec fn chain_validity_defined(certs: Seq<CertView>, time: u64) -> bool {
    forall|k: int| 1 <= k < certs.len() && accepted_below(certs, k, time)
        && spec_may_be_parent_of(certs[k - 1].certificate_type, #[trigger] certs[k].certificate_type)
        && x509_signature_valid(certs[k].der, certs[k - 1].der) ==> validity_defined(certs[k], time)
}

/// Whether every validity period of `certs` can be checked at `time`.
pub open spec fn all_validity_defined(certs: Seq<CertView>, time: u64) -> bool {
    forall|i: int| 0 <= i < certs.len() ==> validity_defined(#[trigger] certs[i], time)
}

impl UnverifiedCertificateChain {
    /// Verifies the chain against `root` at `timestamp`: the first
    /// certificate must be `root` itself, and each further certificate must
    /// verify against the one before it.
    pub fn verify(self, root: &RootCertificate, timestamp: u64) -> (r: Result<CertificateChain, VerifyChainError>)
        requires
            self@.len() > 0 && self@[0].der == root@.der ==> chain_validity_defined(self@, timestamp),
        ensures
            self@.len() == 0 ==> r matches Err(VerifyChainError::EmptyChain),
            self@.len() > 0 && self@[0].der != root@.der ==> (r matches Err(VerifyChainError::WrongRoot(a, b))
                && a@ == root@ && b@ == self@[0]),
            self@.len() > 0 && self@[0].der == root@.der ==> (r is Ok <==> accepted_below(self@, self@.len() as int, timestamp)),
            self@.len() > 0 && self@[0].der == root@.der && !accepted_below(self@, self@.len() as int, timestamp)
                ==> r matches Err(VerifyChainError::SignatureVerificationFailed(_)),
            r is Ok ==> r->Ok_0.root() == root@ && r->Ok_0.certificates() == self@.subrange(1, self@.len() as int),
            r matches Err(VerifyChainError::SignatureVerificationFailed(e)) ==> exists|k: int|
                1 <= k < self@.len() && accepted_below(self@, k, timestamp)
                && !spec_signature_accepts(self@[k], self@[k - 1], timestamp)
                && verify_error_matches(self@[k], self@[k - 1], timestamp, e),
            !(r matches Err(VerifyChainError::ValidityError(_))),
    {
        let certs = self.certificates;
        let n = certs.len();
        if n == 0 {
            return Err(VerifyChainError::EmptyChain);
        }
        if !certs[0].same_der(root.as_unverified()) {
            return Err(VerifyChainError::WrongRoot(root.duplicate(), certs[0].duplicate()));
        }
        let _ = certs[0].as_der();
        let _ = root.as_der();
        assert(cert_views(certs@)[0] == root@);
        if n == 1 {
            return Ok(CertificateChain { _root: root.duplicate(), certificates: Vec::new() });
        }
        let mut verified: Vec<Certificate> = Vec::new();
        let mut i: usize = 1;
        while i < n
            invariant
                n == certs@.len(),
                cert_views(certs@) == self@,
                self@[0] == root@,
                1 <= i <= n,
                chain_validity_defined(self@, timestamp),
                verified@.len() == i - 1,
                forall|j: int| 0 <= j < i - 1 ==> #[trigger] verified@[j]@ == self@[j + 1],
                accepted_below(self@, i as int, timestamp),
            decreases n - i,
        {
            let current = certs[i].duplicate();
            let parent: &Certificate = if verified.len() == 0 {
                root.as_certificate()
            } else {
                &verified[verified.len() - 1]
            };
            assert(parent@ == self@[i - 1]);
            assert(spec_may_be_parent_of(self@[i - 1].certificate_type, self@[i as int].certificate_type)
                && x509_signature_valid(self@[i as int].der, self@[i - 1].der) ==> validity_defined(self@[i as int], timestamp)) by {
                reveal(chain_validity_defined);
            }
            match current.verify_signature(parent, timestamp) {
                Ok(c) => {
                    verified.push(c);
                    assert(spec_signature_accepts(self@[i as int], self@[i - 1], timestamp));
                    assert(accepted_below(self@, i + 1, timestamp));
                },
                Err(e) => {
                    return Err(VerifyChainError::SignatureVerificationFailed(e));
                },
            }
            i = i + 1;
        }
        assert(trusted_views(verified@) =~= self@.subrange(1, n as int));
        Ok(CertificateChain { _root: root.duplicate(), certificates: verified })
    }

    /// Verifies like `verify`; `None`, with nothing verified, for a chain
    /// that starts at `root` but holds a validity period that cannot be
    /// checked at `timestamp` (a bound before the epoch).
    pub fn try_verify(self, root: &RootCertificate, timestamp: u64) -> (r: Option<Result<CertificateChain, VerifyChainError>>)
        ensures
            r is None <==> (self@.len() > 0 && self@[0].der == root@.der && !all_validity_defined(self@, timestamp)),
            r matches Some(v) ==> ({
                &&& self@.len() == 0 ==> (v matches Err(VerifyChainError::EmptyChain))
                &&& self@.len() > 0 && self@[0].der != root@.der ==> (v matches Err(VerifyChainError::WrongRoot(a, b))
                    && a@ == root@ && b@ == self@[0])
                &&& self@.len() > 0 && self@[0].der == root@.der ==> (v is Ok <==> accepted_below(self@, self@.len() as int, timestamp))
                &&& self@.len() > 0 && self@[0].der == root@.der && !accepted_below(self@, self@.len() as int, timestamp)
                    ==> (v matches Err(VerifyChainError::SignatureVerificationFailed(_)))
                &&& v is Ok ==> v->Ok_0.root() == root@ && v->Ok_0.certificates() == self@.subrange(1, self@.len() as int)
            }),
    {
        let n = self.certificates.len();
        if n == 0 || !self.certificates[0].same_der(root.as_unverified()) {
            let _ = root.as_der();
            return Some(self.verify(root, timestamp));
        }
        let _ = root.as_der();
        let mut i: usize = 0;
        while i < n
            invariant
                n == self.certificates@.len(),
                cert_views(self.certificates@) == self@,
                n > 0,
                self@[0].der == root@.der,
                i <= n,
                forall|j: int| 0 <= j < i ==> validity_defined(#[trigger] self@[j], timestamp),
            decreases n - i,
        {
            let not_before = self.certificates[i].not_before();
            let not_after = self.certificates[i].not_after();
            if not_before < 0 || ((timestamp as i128) >= (not_before as i128) && not_after < 0) {
                assert(!validity_defined(self@[i as int], timestamp));
                return None;
            }
            i = i + 1;
        }
        assert(chain_validity_defined(self@, timestamp)) by {
            reveal(chain_validity_defined);
        }
        Some(self.verify(root, timestamp))
    }
}

} // verus!
