//! The state of the central trust store: the root certificate and the
//! certificates it (transitively) vouches for, keyed by SPKI hash, with the
//! transactions that add a certificate or remove an expired one. Each
//! transaction is first checked, then applied, and can be reverted.

use vstd::prelude::*;

use crate::certificate::{
    validity_defined, spec_validity_at, spec_signature_accepts, verify_error_matches, spec_from_der,
    CertView, Certificate, DerOutcome, RootCertificate, SignatureVerificationError,
    UnverifiedCertificate,
};
use crate::certificate_chain::has_spki_hash;
use crate::certificate_type::{spec_may_be_parent_of, CertificateType};
use crate::digest::{sha512, sha512_digest};
use crate::spki_hash::SpkiHash;
use crate::x509::x509_signature_valid;

verus! {

/// A change to the trust store.
#[derive(Debug)]
pub enum Transaction {
    Add(UnverifiedCertificate),
    RemoveExpired(UnverifiedCertificate),
}

/// Why a transaction is refused.
#[derive(Debug)]
pub enum TrustStoreError {
    SignerNotKnown,
    IssuerIsNotSigner,
    CertificateAlreadyExists,
    CertificateInvalid(SignatureVerificationError),
    CertificateNotExpired,
    CertificateNotFound,
    CertificateDoesNotMatch,
}

/// A transaction as the library reads it.
pub enum TxView {
    Add(CertView),
    RemoveExpired(CertView),
}

impl View for Transaction {
    type V = TxView;

    open spec fn view(&self) -> TxView {
        match self {
            Transaction::Add(c) => TxView::Add(c@),
            Transaction::RemoveExpired(c) => TxView::RemoveExpired(c@),
        }
    }
}

/// The trust store as the library reads it: the root and the certificates by SPKI hash.
pub struct StateView {
    pub root: CertView,
    pub certificates: Map<Seq<u8>, CertView>,
}

/// The certificates of a list, keyed by their SPKI hashes.
pub open spec fn keyed(certs: Seq<CertView>) -> Map<Seq<u8>, CertView> {
    Map::new(
        |h: Seq<u8>| has_spki_hash(certs, h),
        |h: Seq<u8>| certs[choose|i: int| 0 <= i < certs.len() && #[trigger] certs[i].spki_hash == h],
    )
}

/// No SPKI hash occurs twice in the list.
pub open spec fn distinct_keys(certs: Seq<CertView>) -> bool {
    forall|i: int, j: int| 0 <= i < j < certs.len() ==> #[trigger] certs[i].spki_hash != #[trigger] certs[j].spki_hash
}

/// A certificate view that reading its own DER gives.
pub open spec fn valid_view(c: CertView) -> bool {
    spec_from_der(c.der) == DerOutcome::Valid(c)
}

/// Every stored certificate is a valid certificate stored under its own SPKI hash.
pub open spec fn state_wf(s: StateView) -> bool {
    &&& valid_view(s.root)
    &&& forall|h: Seq<u8>| #[trigger] s.certificates.contains_key(h) ==> s.certificates[h].spki_hash == h
        && valid_view(s.certificates[h])
}

/// The outcome of checking a transaction, without the signature error's payload.
pub enum CheckOutcome {
    Accepted,
    SignerNotKnown,
    IssuerIsNotSigner,
    CertificateAlreadyExists,
    CertificateInvalid,
    CertificateNotExpired,
    CertificateNotFound,
    CertificateDoesNotMatch,
}

/// What checking `tx`, signed by `signer`, at `time` gives on `s`.
pub open spec fn spec_check(s: StateView, signer: Seq<u8>, time: u64, tx: TxView) -> CheckOutcome {
    if !s.certificates.contains_key(signer) {
        CheckOutcome::SignerNotKnown
    } else {
        let signer_cert = s.certificates[signer];
        match tx {
            TxView::Add(c) => if s.certificates.contains_key(c.spki_hash) {
                CheckOutcome::CertificateAlreadyExists
            } else if signer_cert.spki_hash != c.issuer {
                CheckOutcome::IssuerIsNotSigner
            } else if !spec_signature_accepts(c, signer_cert, time) {
                CheckOutcome::CertificateInvalid
            } else {
                CheckOutcome::Accepted
            },
            TxView::RemoveExpired(c) => if !s.certificates.contains_key(c.spki_hash) {
                CheckOutcome::CertificateNotFound
            } else if s.certificates[c.spki_hash].der != c.der {
                CheckOutcome::CertificateDoesNotMatch
            } else if spec_validity_at(c, time) is Ok {
                CheckOutcome::CertificateNotExpired
            } else {
                CheckOutcome::Accepted
            },
        }
    }
}

/// A transaction is accepted exactly when its signer is a stored
/// certificate and either it adds a certificate not stored yet, issued by the
/// signer, of a type the signer may sign, whose signature verifies under the
/// signer's key and whose validity period covers `time`; or it removes a
/// stored certificate (the same DER) whose validity period does not cover
/// `time`.
pub proof fn lemma_check_accepts(s: StateView, signer: Seq<u8>, time: u64, tx: TxView)
    ensures
        spec_check(s, signer, time, tx) == CheckOutcome::Accepted <==> (s.certificates.contains_key(signer) && match tx {
            TxView::Add(c) => !s.certificates.contains_key(c.spki_hash) && c.issuer == s.certificates[signer].spki_hash
                && spec_may_be_parent_of(s.certificates[signer].certificate_type, c.certificate_type)
                && x509_signature_valid(c.der, s.certificates[signer].der) && c.not_before <= time && time <= c.not_after,
            TxView::RemoveExpired(c) => s.certificates.contains_key(c.spki_hash) && s.certificates[c.spki_hash].der
                == c.der && (time < c.not_before || time > c.not_after),
        }),
{
}

/// Checking `tx` compares validity periods only where they are defined.
pub open spec fn check_defined(s: StateView, signer: Seq<u8>, time: u64, tx: TxView) -> bool {
    s.certificates.contains_key(signer) ==> match tx {
        TxView::Add(c) => !s.certificates.contains_key(c.spki_hash) && s.certificates[signer].spki_hash == c.issuer
            && spec_may_be_parent_of(s.certificates[signer].certificate_type, c.certificate_type)
            && x509_signature_valid(c.der, s.certificates[signer].der) ==> validity_defined(c, time),
        TxView::RemoveExpired(c) => s.certificates.contains_key(c.spki_hash)
            && s.certificates[c.spki_hash].der == c.der ==> validity_defined(c, time),
    }
}

/// The certificate a transaction carries.
pub open spec fn tx_certificate(tx: TxView) -> CertView {
    match tx {
        TxView::Add(c) => c,
        TxView::RemoveExpired(c) => c,
    }
}

/// The state after applying an accepted transaction.
pub open spec fn spec_apply(s: StateView, tx: TxView) -> StateView {
    match tx {
        TxView::Add(c) => StateView { root: s.root, certificates: s.certificates.insert(c.spki_hash, c) },
        TxView::RemoveExpired(c) => StateView { root: s.root, certificates: s.certificates.remove(c.spki_hash) },
    }
}

/// The state after reverting a transaction.
pub open spec fn spec_revert(s: StateView, tx: TxView) -> StateView {
    match tx {
        TxView::Add(c) => StateView { root: s.root, certificates: s.certificates.remove(c.spki_hash) },
        TxView::RemoveExpired(c) => StateView { root: s.root, certificates: s.certificates.insert(c.spki_hash, c) },
    }
}

/// The trust store's state.
pub struct State {
    root: RootCertificate,
    certificates: Vec<Certificate>,
}

pub open spec fn trusted_cert_views(v: Seq<Certificate>) -> Seq<CertView> {
    v.map_values(|c: Certificate| c@)
}

impl View for State {
    type V = StateView;

    closed spec fn view(&self) -> StateView {
        StateView { root: self.root@, certificates: keyed(trusted_cert_views(self.certificates@)) }
    }
}

proof fn lemma_keyed_at(certs: Seq<CertView>, i: int)
    requires
        distinct_keys(certs),
        0 <= i < certs.len(),
    ensures
        keyed(certs).contains_key(certs[i].spki_hash),
        keyed(certs)[certs[i].spki_hash] == certs[i],
{
    let h = certs[i].spki_hash;
    assert(has_spki_hash(certs, h));
    let k = choose|k: int| 0 <= k < certs.len() && #[trigger] certs[k].spki_hash == h;
    assert(certs[k].spki_hash == h);
    if k != i {
        if k < i {
            assert(certs[k].spki_hash != certs[i].spki_hash);
        } else {
            assert(certs[i].spki_hash != certs[k].spki_hash);
        }
    }
}

proof fn lemma_keyed_push(certs: Seq<CertView>, c: CertView)
    requires
        distinct_keys(certs),
        !has_spki_hash(certs, c.spki_hash),
    ensures
        distinct_keys(certs.push(c)),
        keyed(certs.push(c)) == keyed(certs).insert(c.spki_hash, c),
{
    let n = certs.push(c);
    assert(distinct_keys(n)) by {
        assert forall|i: int, j: int| 0 <= i < j < n.len() implies #[trigger] n[i].spki_hash != #[trigger] n[j].spki_hash by {
            if j == certs.len() {
                if n[i].spki_hash == c.spki_hash {
                    assert(certs[i].spki_hash == c.spki_hash);
                }
            } else {
                assert(certs[i].spki_hash != certs[j].spki_hash);
            }
        }
    }
    assert forall|h: Seq<u8>| #[trigger] keyed(n).contains_key(h) <==> keyed(certs).insert(c.spki_hash, c).contains_key(h) by {
        if has_spki_hash(n, h) {
            let k = choose|k: int| 0 <= k < n.len() && #[trigger] n[k].spki_hash == h;
            if k < certs.len() {
                assert(certs[k].spki_hash == h);
            }
        }
        if has_spki_hash(certs, h) {
            let k = choose|k: int| 0 <= k < certs.len() && #[trigger] certs[k].spki_hash == h;
            assert(n[k].spki_hash == h);
        }
        if h == c.spki_hash {
            assert(n[certs.len() as int].spki_hash == h);
        }
    }
    assert forall|h: Seq<u8>| #[trigger] keyed(n).contains_key(h) implies keyed(n)[h] == keyed(certs).insert(c.spki_hash, c)[h] by {
        let k = choose|k: int| 0 <= k < n.len() && #[trigger] n[k].spki_hash == h;
        lemma_keyed_at(n, k);
        if k < certs.len() {
            assert(certs[k] == n[k]);
            lemma_keyed_at(certs, k);
        }
    }
    assert(keyed(n) =~= keyed(certs).insert(c.spki_hash, c));
}

proof fn lemma_keyed_remove(certs: Seq<CertView>, k: int)
    requires
        distinct_keys(certs),
        0 <= k < certs.len(),
    ensures
        distinct_keys(certs.remove(k)),
        keyed(certs.remove(k)) == keyed(certs).remove(certs[k].spki_hash),
{
    let n = certs.remove(k);
    let key = certs[k].spki_hash;
    assert(forall|i: int| 0 <= i < n.len() ==> #[trigger] n[i] == if i < k { certs[i] } else { certs[i + 1] });
    assert(distinct_keys(n)) by {
        assert forall|i: int, j: int| 0 <= i < j < n.len() implies #[trigger] n[i].spki_hash != #[trigger] n[j].spki_hash by {
            let a = if i < k { i } else { i + 1 };
            let b = if j < k { j } else { j + 1 };
            assert(certs[a].spki_hash != certs[b].spki_hash);
        }
    }
    assert forall|h: Seq<u8>| #[trigger] keyed(n).contains_key(h) <==> keyed(certs).remove(key).contains_key(h) by {
        if has_spki_hash(n, h) {
            let i = choose|i: int| 0 <= i < n.len() && #[trigger] n[i].spki_hash == h;
            let a = if i < k { i } else { i + 1 };
            assert(certs[a].spki_hash == h);
            assert(certs[a].spki_hash != certs[k].spki_hash);
        }
        if has_spki_hash(certs, h) && h != key {
            let i = choose|i: int| 0 <= i < certs.len() && #[trigger] certs[i].spki_hash == h;
            assert(i != k);
            let a = if i < k { i } else { i - 1 };
            assert(n[a].spki_hash == h);
        }
    }
    assert forall|h: Seq<u8>| #[trigger] keyed(n).contains_key(h) implies keyed(n)[h] == keyed(certs).remove(key)[h] by {
        let i = choose|i: int| 0 <= i < n.len() && #[trigger] n[i].spki_hash == h;
        lemma_keyed_at(n, i);
        let a = if i < k { i } else { i + 1 };
        lemma_keyed_at(certs, a);
    }
    assert(keyed(n) =~= keyed(certs).remove(key));
}

impl State {
    /// The stored certificates are keyed by distinct SPKI hashes.
    pub closed spec fn wf(&self) -> bool {
        &&& distinct_keys(trusted_cert_views(self.certificates@))
        &&& valid_view(self.root@)
        &&& forall|i: int| 0 <= i < self.certificates@.len() ==> valid_view(#[trigger] self.certificates@[i]@)
    }

    /// In every state the store can be in, each trusted certificate is stored
    /// under its own SPKI hash and is what reading its DER gives, and so is the root.
    pub proof fn lemma_stored_under_own_hash(&self)
        requires
            self.wf(),
        ensures
            state_wf(self@),
    {
        let certs = trusted_cert_views(self.certificates@);
        assert forall|h: Seq<u8>| #[trigger] self@.certificates.contains_key(h) implies self@.certificates[h].spki_hash == h
            && valid_view(self@.certificates[h]) by {
            let k = choose|k: int| 0 <= k < certs.len() && #[trigger] certs[k].spki_hash == h;
            lemma_keyed_at(certs, k);
            assert(valid_view(self.certificates@[k]@));
        }
    }

    /// A store that trusts only `root`.
    pub fn initialize(root: RootCertificate) -> (r: State)
        ensures
            r.wf(),
            r@.root == root@,
            r@.certificates == Map::<Seq<u8>, CertView>::empty().insert(root@.spki_hash, root@),
    {
        let _ = root.as_der();
        let cert = root.duplicate().to_certificate();
        let certificates = vec![cert];
        let r = State { root, certificates };
        proof {
            let s = trusted_cert_views(r.certificates@);
            assert(s =~= seq![root@]);
            lemma_keyed_push(Seq::<CertView>::empty(), root@);
            assert(seq![root@] =~= Seq::<CertView>::empty().push(root@));
            assert(keyed(Seq::<CertView>::empty()) =~= Map::<Seq<u8>, CertView>::empty());
        }
        r
    }

    /// The index of the certificate with SPKI hash `h`, if stored.
    /// Whether the state is well formed: no SPKI hash is stored twice (and
    /// every stored certificate is what reading its DER gives, which holds
    /// of every certificate value). Every state the library builds is.
    pub fn is_well_formed(&self) -> (r: bool)
        ensures
            r == self.wf(),
    {
        let _ = self.root.as_der();
        let n = self.certificates.len();
        let ghost views = trusted_cert_views(self.certificates@);
        let mut i: usize = 0;
        while i < n
            invariant
                n == self.certificates@.len(),
                views == trusted_cert_views(self.certificates@),
                valid_view(self.root@),
                i <= n,
                forall|k: int| 0 <= k < i ==> valid_view(#[trigger] self.certificates@[k]@),
                forall|a: int, b: int| 0 <= a < b < i ==> #[trigger] views[a].spki_hash != #[trigger] views[b].spki_hash,
            decreases n - i,
        {
            let _ = self.certificates[i].as_der();
            let mut j: usize = 0;
            while j < i
                invariant
                    n == self.certificates@.len(),
                    views == trusted_cert_views(self.certificates@),
                    i < n,
                    j <= i,
                    forall|a: int| 0 <= a < j ==> #[trigger] views[a].spki_hash != views[i as int].spki_hash,
                decreases i - j,
            {
                if *self.certificates[j].spki_hash() == *self.certificates[i].spki_hash() {
                    assert(views[j as int] == self.certificates@[j as int]@);
                    assert(views[i as int] == self.certificates@[i as int]@);
                    assert(views[j as int].spki_hash == views[i as int].spki_hash);
                    assert(!distinct_keys(views));
                    return false;
                }
                j = j + 1;
            }
            i = i + 1;
        }
        true
    }

    fn find(&self, h: &SpkiHash) -> (r: Option<usize>)
        requires
            self.wf(),
        ensures
            has_spki_hash(trusted_cert_views(self.certificates@), h@) <==> r is Some,
            r is Some ==> r->0 < self.certificates@.len() && self.certificates@[r->0 as int]@.spki_hash == h@,
    {
        let n = self.certificates.len();
        let mut i: usize = 0;
        while i < n
            invariant
                n == self.certificates@.len(),
                i <= n,
                forall|j: int| 0 <= j < i ==> self.certificates@[j]@.spki_hash != h@,
            decreases n - i,
        {
            if *self.certificates[i].spki_hash() == *h {
                assert(trusted_cert_views(self.certificates@)[i as int].spki_hash == h@);
                return Some(i);
            }
            i = i + 1;
        }
        None
    }
}


/// The bytes a transaction contributes to a digest: a tag naming the
/// transaction, then the certificate's DER encoding.
pub open spec fn spec_tx_digest_input(tx: TxView) -> Seq<u8> {
    match tx {
        TxView::Add(c) => seq![97u8, 100, 100] + c.der,
        TxView::RemoveExpired(c) => seq![114u8, 101, 109, 111, 118, 101, 95, 101, 120, 112, 105, 114, 101, 100] + c.der,
    }
}

/// The DER encodings of a list of certificates, concatenated in order.
pub open spec fn concat_ders(certs: Seq<CertView>) -> Seq<u8>
    decreases certs.len(),
{
    if certs.len() == 0 {
        seq![]
    } else {
        concat_ders(certs.drop_last()) + certs.last().der
    }
}

/// Byte strings in lexicographic order, a proper prefix first.
pub open spec fn bytes_lt(a: Seq<u8>, b: Seq<u8>) -> bool
    decreases a.len(),
{
    if a.len() == 0 {
        b.len() > 0
    } else if b.len() == 0 {
        false
    } else if a[0] != b[0] {
        a[0] < b[0]
    } else {
        bytes_lt(a.drop_first(), b.drop_first())
    }
}

proof fn lemma_bytes_lt_irreflexive(a: Seq<u8>)
    ensures
        !bytes_lt(a, a),
    decreases a.len(),
{
    if a.len() > 0 {
        lemma_bytes_lt_irreflexive(a.drop_first());
    }
}

proof fn lemma_bytes_lt_transitive(a: Seq<u8>, b: Seq<u8>, c: Seq<u8>)
    requires
        bytes_lt(a, b),
        bytes_lt(b, c),
    ensures
        bytes_lt(a, c),
    decreases a.len(),
{
    if a.len() > 0 && b.len() > 0 && c.len() > 0 && a[0] == b[0] && b[0] == c[0] {
        lemma_bytes_lt_transitive(a.drop_first(), b.drop_first(), c.drop_first());
    }
}

proof fn lemma_bytes_lt_total(a: Seq<u8>, b: Seq<u8>)
    requires
        a != b,
    ensures
        bytes_lt(a, b) || bytes_lt(b, a),
    decreases a.len(),
{
    if a.len() > 0 && b.len() > 0 && a[0] == b[0] {
        if a.drop_first() == b.drop_first() {
            assert(a =~= seq![a[0]] + a.drop_first());
            assert(b =~= seq![b[0]] + b.drop_first());
        }
        lemma_bytes_lt_total(a.drop_first(), b.drop_first());
    } else if a.len() == 0 && b.len() == 0 {
        assert(a =~= b);
    }
}

/// Compares two byte strings lexicographically.
fn bytes_less(a: &[u8], b: &[u8]) -> (r: bool)
    ensures
        r == bytes_lt(a@, b@),
{
    let mut i: usize = 0;
    assert(a@.skip(0) =~= a@);
    assert(b@.skip(0) =~= b@);
    while i < a.len() && i < b.len()
        invariant
            i <= a@.len(),
            i <= b@.len(),
            bytes_lt(a@, b@) == bytes_lt(a@.skip(i as int), b@.skip(i as int)),
        decreases a@.len() - i,
    {
        assert(a@.skip(i as int)[0] == a@[i as int]);
        assert(b@.skip(i as int)[0] == b@[i as int]);
        if a[i] != b[i] {
            return a[i] < b[i];
        }
        assert(a@.skip(i as int).drop_first() =~= a@.skip(i + 1 as int));
        assert(b@.skip(i as int).drop_first() =~= b@.skip(i + 1 as int));
        i = i + 1;
    }
    i == a.len() && i < b.len()
}

/// Certificates in strictly ascending order of their SPKI hashes.
pub open spec fn in_hash_order(q: Seq<CertView>) -> bool {
    forall|i: int, j: int| 0 <= i < j < q.len() ==> bytes_lt(#[trigger] q[i].spki_hash, #[trigger] q[j].spki_hash)
}

/// The certificates of `m` in ascending order of their SPKI hashes.
pub open spec fn hash_ordered(m: Map<Seq<u8>, CertView>) -> Seq<CertView> {
    choose|q: Seq<CertView>| in_hash_order(q) && keyed(q) == m
}

proof fn lemma_hash_order_distinct(q: Seq<CertView>)
    requires
        in_hash_order(q),
    ensures
        distinct_keys(q),
{
    assert forall|i: int, j: int| 0 <= i < j < q.len() implies #[trigger] q[i].spki_hash != #[trigger] q[j].spki_hash by {
        assert(bytes_lt(q[i].spki_hash, q[j].spki_hash));
        lemma_bytes_lt_irreflexive(q[i].spki_hash);
    }
}

/// Two hash-ordered lists with the same certificates by hash are equal.
proof fn lemma_hash_order_unique(q1: Seq<CertView>, q2: Seq<CertView>)
    requires
        in_hash_order(q1),
        in_hash_order(q2),
        keyed(q1) == keyed(q2),
    ensures
        q1 == q2,
    decreases q1.len(),
{
    lemma_hash_order_distinct(q1);
    lemma_hash_order_distinct(q2);
    if q1.len() == 0 {
        if q2.len() > 0 {
            lemma_keyed_at(q2, 0);
            assert(!has_spki_hash(q1, q2[0].spki_hash));
        }
        assert(q1 =~= q2);
    } else if q2.len() == 0 {
        lemma_keyed_at(q1, 0);
        assert(!has_spki_hash(q2, q1[0].spki_hash));
    } else {
        let h1 = q1[0].spki_hash;
        let h2 = q2[0].spki_hash;
        lemma_keyed_at(q1, 0);
        lemma_keyed_at(q2, 0);
        if h1 != h2 {
            let j = choose|j: int| 0 <= j < q2.len() && #[trigger] q2[j].spki_hash == h1;
            let i = choose|i: int| 0 <= i < q1.len() && #[trigger] q1[i].spki_hash == h2;
            assert(j != 0);
            assert(i != 0);
            assert(bytes_lt(q2[0].spki_hash, q2[j].spki_hash));
            assert(bytes_lt(q1[0].spki_hash, q1[i].spki_hash));
            lemma_bytes_lt_transitive(h1, h2, h1);
            lemma_bytes_lt_irreflexive(h1);
        }
        assert(q1[0] == q2[0]);
        lemma_keyed_remove(q1, 0);
        lemma_keyed_remove(q2, 0);
        assert(q1.remove(0) =~= q1.drop_first());
        assert(q2.remove(0) =~= q2.drop_first());
        assert(in_hash_order(q1.drop_first()));
        assert(in_hash_order(q2.drop_first()));
        lemma_hash_order_unique(q1.drop_first(), q2.drop_first());
        assert(q1 =~= seq![q1[0]] + q1.drop_first());
        assert(q2 =~= seq![q2[0]] + q2.drop_first());
    }
}

/// Two lists without repeated hashes that hold the same certificates give
/// the same certificates by hash.
proof fn lemma_keyed_same_elements(q1: Seq<CertView>, q2: Seq<CertView>)
    requires
        distinct_keys(q1),
        distinct_keys(q2),
        forall|i: int| 0 <= i < q1.len() ==> #[trigger] q2.contains(q1[i]),
        forall|j: int| 0 <= j < q2.len() ==> #[trigger] q1.contains(q2[j]),
    ensures
        keyed(q1) == keyed(q2),
{
    lemma_keyed_included(q1, q2);
    lemma_keyed_included(q2, q1);
    assert(keyed(q1) =~= keyed(q2));
}

/// Where every certificate of `q1` is in `q2`, `q2` keys each hash of `q1`
/// to the same certificate.
proof fn lemma_keyed_included(q1: Seq<CertView>, q2: Seq<CertView>)
    requires
        distinct_keys(q1),
        distinct_keys(q2),
        forall|i: int| 0 <= i < q1.len() ==> #[trigger] q2.contains(q1[i]),
    ensures
        forall|h: Seq<u8>| #[trigger] keyed(q1).contains_key(h) ==> keyed(q2).contains_key(h) && keyed(q2)[h] == keyed(q1)[h],
{
    assert forall|h: Seq<u8>| #[trigger] keyed(q1).contains_key(h) implies keyed(q2).contains_key(h) && keyed(q2)[h] == keyed(q1)[h] by {
        let i = choose|i: int| 0 <= i < q1.len() && #[trigger] q1[i].spki_hash == h;
        assert(q2.contains(q1[i]));
        let j = choose|j: int| 0 <= j < q2.len() && q2[j] == q1[i];
        lemma_keyed_at(q1, i);
        lemma_keyed_at(q2, j);
    }
}

/// The certificates of `views` at the positions `order`, in that order.
pub open spec fn pick(views: Seq<CertView>, order: Seq<usize>) -> Seq<CertView> {
    Seq::new(order.len(), |p: int| views[order[p] as int])
}

fn append_bytes(out: &mut Vec<u8>, bytes: &[u8])
    ensures
        final(out)@ == old(out)@ + bytes@,
{
    let mut i: usize = 0;
    while i < bytes.len()
        invariant
            i <= bytes@.len(),
            out@ == old(out)@ + bytes@.subrange(0, i as int),
        decreases bytes@.len() - i,
    {
        out.push(bytes[i]);
        i = i + 1;
        assert(out@ =~= old(out)@ + bytes@.subrange(0, i as int));
    }
    assert(bytes@.subrange(0, bytes@.len() as int) =~= bytes@);
}

impl Transaction {
    /// The bytes this transaction feeds into a digest.
    pub fn digest_input(&self) -> (r: Vec<u8>)
        ensures
            r@ == spec_tx_digest_input(self@),
    {
        match self {
            Transaction::Add(c) => {
                let mut out: Vec<u8> = vec![97u8, 100, 100];
                let ghost start = out@;
                append_bytes(&mut out, c.as_der());
                assert(start =~= seq![97u8, 100, 100]);
                out
            },
            Transaction::RemoveExpired(c) => {
                let mut out: Vec<u8> = vec![114u8, 101, 109, 111, 118, 101, 95, 101, 120, 112, 105, 114, 101, 100];
                let ghost start = out@;
                append_bytes(&mut out, c.as_der());
                assert(start =~= seq![114u8, 101, 109, 111, 118, 101, 95, 101, 120, 112, 105, 114, 101, 100]);
                out
            },
        }
    }
}

impl State {
    /// The bytes the state feeds into its digest: the root's DER encoding,
    /// then the stored certificates' encodings in ascending order of their
    /// SPKI hashes. They depend only on the root and the certificates stored,
    /// not on the order in which they were added.
    pub open spec fn digest_input(&self) -> Seq<u8> {
        self@.root.der + concat_ders(hash_ordered(self@.certificates))
    }

    /// The storage positions of the certificates, in ascending order of their
    /// SPKI hashes.
    fn hash_order(&self) -> (order: Vec<usize>)
        requires
            self.wf(),
        ensures
            order@.len() == self.certificates@.len(),
            forall|p: int| 0 <= p < order@.len() ==> #[trigger] order@[p] < self.certificates@.len(),
            forall|k: int| 0 <= k < self.certificates@.len() ==> #[trigger] order@.contains(k as usize),
            in_hash_order(pick(trusted_cert_views(self.certificates@), order@)),
    {
        let n = self.certificates.len();
        let ghost views = trusted_cert_views(self.certificates@);
        let mut order: Vec<usize> = Vec::new();
        let mut i: usize = 0;
        while i < n
            invariant
                n == self.certificates@.len(),
                views == trusted_cert_views(self.certificates@),
                distinct_keys(views),
                i <= n,
                order@.len() == i,
                forall|p: int| 0 <= p < order@.len() ==> #[trigger] order@[p] < i,
                forall|k: int| 0 <= k < i ==> #[trigger] order@.contains(k as usize),
                in_hash_order(pick(views, order@)),
            decreases n - i,
        {
            let key = self.certificates[i].spki_hash();
            let mut pos: usize = 0;
            while pos < order.len()
                invariant
                    n == self.certificates@.len(),
                    views == trusted_cert_views(self.certificates@),
                    distinct_keys(views),
                    i < n,
                    key@ == views[i as int].spki_hash,
                    order@.len() == i,
                    forall|p: int| 0 <= p < order@.len() ==> #[trigger] order@[p] < i,
                    pos <= order@.len(),
                    forall|q: int| 0 <= q < pos ==> bytes_lt(#[trigger] views[order@[q] as int].spki_hash, key@),
                ensures
                    pos <= order@.len(),
                    forall|q: int| 0 <= q < pos ==> bytes_lt(#[trigger] views[order@[q] as int].spki_hash, key@),
                    pos < order@.len() ==> bytes_lt(key@, views[order@[pos as int] as int].spki_hash),
                decreases order@.len() - pos,
            {
                let other = self.certificates[order[pos]].spki_hash();
                if bytes_less(key.as_slice(), other.as_slice()) {
                    break;
                }
                proof {
                    let k = order@[pos as int] as int;
                    assert(views[k].spki_hash != views[i as int].spki_hash);
                    lemma_bytes_lt_total(views[k].spki_hash, key@);
                }
                pos = pos + 1;
            }
            let ghost before = order@;
            proof {
                let sv = pick(views, before);
                assert forall|q: int| pos <= q < before.len() implies bytes_lt(key@, #[trigger] views[before[q] as int].spki_hash) by {
                    if pos < before.len() {
                        assert(bytes_lt(key@, views[before[pos as int] as int].spki_hash));
                        if q > pos {
                            assert(bytes_lt(sv[pos as int].spki_hash, sv[q].spki_hash));
                            lemma_bytes_lt_transitive(key@, sv[pos as int].spki_hash, sv[q].spki_hash);
                        }
                    }
                }
            }
            order.insert(pos, i);
            proof {
                let after = order@;
                assert(after =~= before.subrange(0, pos as int).push(i).add(before.subrange(pos as int, before.len() as int)));
                let sv = pick(views, before);
                let sa = pick(views, after);
                assert forall|a: int, b: int| 0 <= a < b < sa.len() implies bytes_lt(#[trigger] sa[a].spki_hash, #[trigger] sa[b].spki_hash) by {
                    if b < pos {
                        assert(sa[a] == sv[a] && sa[b] == sv[b]);
                    } else if b == pos {
                        assert(sa[a] == sv[a]);
                    } else if a < pos {
                        assert(sa[a] == sv[a] && sa[b] == sv[b - 1]);
                        assert(bytes_lt(sv[a].spki_hash, key@));
                        assert(bytes_lt(key@, views[before[b - 1] as int].spki_hash));
                        lemma_bytes_lt_transitive(sv[a].spki_hash, key@, sv[b - 1].spki_hash);
                    } else if a == pos {
                        assert(sa[b] == sv[b - 1]);
                        assert(bytes_lt(key@, views[before[b - 1] as int].spki_hash));
                    } else {
                        assert(sa[a] == sv[a - 1] && sa[b] == sv[b - 1]);
                    }
                }
                assert forall|k: int| 0 <= k < i + 1 implies #[trigger] after.contains(k as usize) by {
                    if k == i {
                        assert(after[pos as int] == i);
                    } else {
                        assert(before.contains(k as usize));
                        let p = choose|p: int| 0 <= p < before.len() && before[p] == k as usize;
                        if p < pos {
                            assert(after[p] == k as usize);
                        } else {
                            assert(after[p + 1] == k as usize);
                        }
                    }
                }
                assert forall|p: int| 0 <= p < after.len() implies #[trigger] after[p] < i + 1 by {
                    if p < pos {
                        assert(after[p] == before[p]);
                    } else if p > pos {
                        assert(after[p] == before[p - 1]);
                    }
                }
            }
            i = i + 1;
        }
        order
    }

    /// The SHA-512 digest of the state.
    pub fn digest(&self) -> (r: Vec<u8>)
        requires
            self.wf(),
        ensures
            r@ == sha512(self.digest_input()),
            self.digest_input().subrange(0, self@.root.der.len() as int) == self@.root.der,
    {
        let order = self.hash_order();
        let ghost views = trusted_cert_views(self.certificates@);
        let ghost sv = pick(views, order@);
        let mut out: Vec<u8> = Vec::new();
        append_bytes(&mut out, self.root.as_der());
        assert(out@ =~= self.root@.der);
        let n = order.len();
        let mut p: usize = 0;
        while p < n
            invariant
                n == order@.len(),
                n == self.certificates@.len(),
                views == trusted_cert_views(self.certificates@),
                sv == pick(views, order@),
                forall|q: int| 0 <= q < order@.len() ==> #[trigger] order@[q] < self.certificates@.len(),
                p <= n,
                out@ == self.root@.der + concat_ders(sv.subrange(0, p as int)),
            decreases n - p,
        {
            append_bytes(&mut out, self.certificates[order[p]].as_der());
            proof {
                assert(sv.subrange(0, p + 1).drop_last() =~= sv.subrange(0, p as int));
                assert(sv.subrange(0, p + 1).last() == sv[p as int]);
            }
            p = p + 1;
        }
        proof {
            assert(sv.subrange(0, n as int) =~= sv);
            lemma_hash_order_distinct(sv);
            assert forall|q: int| 0 <= q < sv.len() implies #[trigger] views.contains(sv[q]) by {
                assert(views[order@[q] as int] == sv[q]);
            }
            assert forall|k: int| 0 <= k < views.len() implies #[trigger] sv.contains(views[k]) by {
                assert(order@.contains(k as usize));
                let q = choose|q: int| 0 <= q < order@.len() && order@[q] == k as usize;
                assert(sv[q] == views[k]);
            }
            lemma_keyed_same_elements(sv, views);
            assert(keyed(sv) == self@.certificates);
            let chosen = hash_ordered(self@.certificates);
            assert(in_hash_order(chosen) && keyed(chosen) == self@.certificates);
            lemma_hash_order_unique(chosen, sv);
            assert(self.digest_input() == self@.root.der + concat_ders(sv));
            assert(self.digest_input().subrange(0, self@.root.der.len() as int) =~= self@.root.der);
        }
        sha512_digest(out.as_slice())
    }

    /// Checks like `check` where the validity period of the transaction's
    /// certificate can be checked at `time` (no bound lies before the epoch);
    /// `None`, with nothing checked, where it cannot.
    pub fn try_check(&self, signer: &SpkiHash, time: u64, transaction: &Transaction) -> (r: Option<Result<(), TrustStoreError>>)
        requires
            self.wf(),
        ensures
            validity_defined(tx_certificate(transaction@), time) <==> r is Some,
            r matches Some(v) ==> match spec_check(self@, signer@, time, transaction@) {
                CheckOutcome::Accepted => v is Ok,
                CheckOutcome::SignerNotKnown => v matches Err(TrustStoreError::SignerNotKnown),
                CheckOutcome::IssuerIsNotSigner => v matches Err(TrustStoreError::IssuerIsNotSigner),
                CheckOutcome::CertificateAlreadyExists => v matches Err(TrustStoreError::CertificateAlreadyExists),
                CheckOutcome::CertificateInvalid => v matches Err(TrustStoreError::CertificateInvalid(e))
                    && (transaction@ matches TxView::Add(c)
                        && verify_error_matches(c, self@.certificates[signer@], time, e)),
                CheckOutcome::CertificateNotExpired => v matches Err(TrustStoreError::CertificateNotExpired),
                CheckOutcome::CertificateNotFound => v matches Err(TrustStoreError::CertificateNotFound),
                CheckOutcome::CertificateDoesNotMatch => v matches Err(TrustStoreError::CertificateDoesNotMatch),
            },
    {
        let c = match transaction {
            Transaction::Add(c) => c,
            Transaction::RemoveExpired(c) => c,
        };
        let not_before = c.not_before();
        let not_after = c.not_after();
        if not_before < 0 || ((time as i128) >= (not_before as i128) && not_after < 0) {
            return None;
        }
        Some(self.check(signer, time, transaction))
    }

    /// Checks whether `transaction`, signed by the holder of `signer`, may be applied at `time`.
    pub fn check(&self, signer: &SpkiHash, time: u64, transaction: &Transaction) -> (r: Result<(), TrustStoreError>)
        requires
            self.wf(),
            check_defined(self@, signer@, time, transaction@),
        ensures
            match spec_check(self@, signer@, time, transaction@) {
                CheckOutcome::Accepted => r is Ok,
                CheckOutcome::SignerNotKnown => r matches Err(TrustStoreError::SignerNotKnown),
                CheckOutcome::IssuerIsNotSigner => r matches Err(TrustStoreError::IssuerIsNotSigner),
                CheckOutcome::CertificateAlreadyExists => r matches Err(TrustStoreError::CertificateAlreadyExists),
                CheckOutcome::CertificateInvalid => r matches Err(TrustStoreError::CertificateInvalid(e))
                    && (transaction@ matches TxView::Add(c)
                        && verify_error_matches(c, self@.certificates[signer@], time, e)),
                CheckOutcome::CertificateNotExpired => r matches Err(TrustStoreError::CertificateNotExpired),
                CheckOutcome::CertificateNotFound => r matches Err(TrustStoreError::CertificateNotFound),
                CheckOutcome::CertificateDoesNotMatch => r matches Err(TrustStoreError::CertificateDoesNotMatch),
            },
            r is Ok <==> (self@.certificates.contains_key(signer@) && match transaction@ {
            TxView::Add(c) => !self@.certificates.contains_key(c.spki_hash) && c.issuer == self@.certificates[signer@].spki_hash
                && spec_may_be_parent_of(self@.certificates[signer@].certificate_type, c.certificate_type)
                && x509_signature_valid(c.der, self@.certificates[signer@].der) && c.not_before <= time && time <= c.not_after,
            TxView::RemoveExpired(c) => self@.certificates.contains_key(c.spki_hash) && self@.certificates[c.spki_hash].der
                == c.der && (time < c.not_before || time > c.not_after),
        }),
    {
        proof {
            lemma_check_accepts(self@, signer@, time, transaction@);
        }
        let ghost certs = trusted_cert_views(self.certificates@);
        let si = match self.find(signer) {
            None => return Err(TrustStoreError::SignerNotKnown),
            Some(si) => si,
        };
        proof {
            lemma_keyed_at(certs, si as int);
        }
        let signer_cert = &self.certificates[si];
        match transaction {
            Transaction::Add(c) => {
                if self.find(c.spki_hash()).is_some() {
                    return Err(TrustStoreError::CertificateAlreadyExists);
                }
                if *signer_cert.spki_hash() != *c.issuer() {
                    return Err(TrustStoreError::IssuerIsNotSigner);
                }
                match c.duplicate().verify_signature(signer_cert, time) {
                    Err(e) => Err(TrustStoreError::CertificateInvalid(e)),
                    Ok(_) => Ok(()),
                }
            },
            Transaction::RemoveExpired(c) => {
                let k = match self.find(c.spki_hash()) {
                    None => return Err(TrustStoreError::CertificateNotFound),
                    Some(k) => k,
                };
                proof {
                    lemma_keyed_at(certs, k as int);
                }
                if !self.certificates[k].as_unverified().same_der(c) {
                    return Err(TrustStoreError::CertificateDoesNotMatch);
                }
                if c.check_validity_at(time).is_ok() {
                    return Err(TrustStoreError::CertificateNotExpired);
                }
                Ok(())
            },
        }
    }

    /// Applies a transaction that `check` accepted.
    pub fn apply(&mut self, signer: &SpkiHash, time: u64, transaction: &Transaction)
        requires
            old(self).wf(),
            check_defined(old(self)@, signer@, time, transaction@),
            spec_check(old(self)@, signer@, time, transaction@) == CheckOutcome::Accepted,
        ensures
            final(self).wf(),
            final(self)@ == spec_apply(old(self)@, transaction@),
    {
        let ghost certs = trusted_cert_views(self.certificates@);
        match transaction {
            Transaction::Add(c) => {
                let k = match self.find(c.issuer()) {
                    Some(k) => k,
                    None => {
                        assert(has_spki_hash(certs, signer@));
                        let ghost si = choose|i: int| 0 <= i < certs.len() && #[trigger] certs[i].spki_hash == signer@;
                        proof {
                            lemma_keyed_at(certs, si);
                        }
                        assert(certs[si].spki_hash == c@.issuer);
                        return;
                    },
                };
                proof {
                    lemma_keyed_at(certs, k as int);
                    let si = choose|i: int| 0 <= i < certs.len() && #[trigger] certs[i].spki_hash == signer@;
                    lemma_keyed_at(certs, si);
                    assert(certs[si].spki_hash == c@.issuer);
                    if si != k as int {
                        if si < k {
                            assert(certs[si].spki_hash != certs[k as int].spki_hash);
                        } else {
                            assert(certs[k as int].spki_hash != certs[si].spki_hash);
                        }
                    }
                }
                let _ = c.as_der();
                let verified = match c.duplicate().verify_signature(&self.certificates[k], time) {
                    Ok(v) => v,
                    Err(_) => {
                        assert(false);
                        return;
                    },
                };
                proof {
                    lemma_keyed_push(certs, c@);
                }
                self.certificates.push(verified);
                assert(trusted_cert_views(self.certificates@) =~= certs.push(c@));
            },
            Transaction::RemoveExpired(c) => {
                let k = match self.find(c.spki_hash()) {
                    Some(k) => k,
                    None => {
                        return;
                    },
                };
                proof {
                    lemma_keyed_remove(certs, k as int);
                }
                self.certificates.remove(k);
                assert(trusted_cert_views(self.certificates@) =~= certs.remove(k as int));
            },
        }
    }

    /// Undoes a transaction.
    pub fn revert(&mut self, transaction: &Transaction)
        requires
            old(self).wf(),
        ensures
            final(self).wf(),
            final(self)@ == spec_revert(old(self)@, transaction@),
    {
        let ghost certs = trusted_cert_views(self.certificates@);
        match transaction {
            Transaction::Add(c) => {
                match self.find(c.spki_hash()) {
                    Some(k) => {
                        proof {
                            lemma_keyed_remove(certs, k as int);
                        }
                        self.certificates.remove(k);
                        assert(trusted_cert_views(self.certificates@) =~= certs.remove(k as int));
                    },
                    None => {
                        assert(keyed(certs).remove(c@.spki_hash) =~= keyed(certs));
                    },
                }
            },
            Transaction::RemoveExpired(c) => {
                let _ = c.as_der();
                self.put(c.duplicate().mark_as_trusted());
            },
        }
    }

    /// Stores `c` under its SPKI hash, replacing a certificate stored there.
    fn put(&mut self, c: Certificate)
        requires
            old(self).wf(),
            valid_view(c@),
        ensures
            final(self).wf(),
            final(self)@ == (StateView { root: old(self)@.root, certificates: old(self)@.certificates.insert(c@.spki_hash, c@) }),
            final(self).root == old(self).root,
            !old(self)@.certificates.contains_key(c@.spki_hash) ==> trusted_cert_views(final(self).certificates@)
                == trusted_cert_views(old(self).certificates@).push(c@),
    {
        let ghost certs = trusted_cert_views(self.certificates@);
        let ghost rest = certs;
        match self.find(c.spki_hash()) {
            Some(k) => {
                proof {
                    lemma_keyed_remove(certs, k as int);
                }
                self.certificates.remove(k);
                assert(trusted_cert_views(self.certificates@) =~= certs.remove(k as int));
                proof {
                    rest = certs.remove(k as int);
                }
            },
            None => {},
        }
        assert(!has_spki_hash(rest, c@.spki_hash)) by {
            if has_spki_hash(rest, c@.spki_hash) {
                let i = choose|i: int| 0 <= i < rest.len() && #[trigger] rest[i].spki_hash == c@.spki_hash;
                lemma_keyed_at(rest, i);
            }
        };
        proof {
            lemma_keyed_push(rest, c@);
        }
        self.certificates.push(c);
        assert(trusted_cert_views(self.certificates@) =~= rest.push(c@));
        assert(keyed(certs).insert(c@.spki_hash, c@) =~= keyed(rest).insert(c@.spki_hash, c@));
    }
}

/// The views of a list of certificates.
pub open spec fn unverified_views(v: Seq<UnverifiedCertificate>) -> Seq<CertView> {
    v.map_values(|c: UnverifiedCertificate| c@)
}

/// The map that inserting `certs` one after another into `m` gives: a later
/// certificate replaces an earlier one with the same SPKI hash.
pub open spec fn insert_all(m: Map<Seq<u8>, CertView>, certs: Seq<CertView>) -> Map<Seq<u8>, CertView>
    decreases certs.len(),
{
    if certs.len() == 0 {
        m
    } else {
        insert_all(m, certs.drop_last()).insert(certs.last().spki_hash, certs.last())
    }
}

impl State {
    /// The root and the stored certificates, as written when the state is saved.
    pub fn to_parts(&self) -> (r: (UnverifiedCertificate, Vec<UnverifiedCertificate>))
        requires
            self.wf(),
        ensures
            r.0@ == self@.root,
            distinct_keys(unverified_views(r.1@)),
            keyed(unverified_views(r.1@)) == self@.certificates,
    {
        let root = self.root.as_unverified().duplicate();
        let mut out: Vec<UnverifiedCertificate> = Vec::new();
        let n = self.certificates.len();
        let mut i: usize = 0;
        while i < n
            invariant
                n == self.certificates@.len(),
                i <= n,
                unverified_views(out@) == trusted_cert_views(self.certificates@).subrange(0, i as int),
            decreases n - i,
        {
            let c = self.certificates[i].as_unverified().duplicate();
            let ghost before = out@;
            out.push(c);
            assert(out@ == before.push(c));
            assert(c@ == trusted_cert_views(self.certificates@)[i as int]);
            proof {
                before.lemma_push_map_commute(|c: UnverifiedCertificate| c@, c);
            }
            assert(trusted_cert_views(self.certificates@).subrange(0, i + 1) =~= trusted_cert_views(self.certificates@).subrange(0, i as int).push(c@));
            assert(unverified_views(out@) =~= trusted_cert_views(self.certificates@).subrange(0, i + 1));
            i = i + 1;
        }
        assert(trusted_cert_views(self.certificates@).subrange(0, n as int) =~= trusted_cert_views(self.certificates@));
        assert(unverified_views(out@) == trusted_cert_views(self.certificates@));
        (root, out)
    }

    /// Rebuilds a saved state from its root and its certificates, each
    /// trusted as saved; a later certificate replaces an earlier one with the
    /// same SPKI hash.
    pub fn from_parts(root: UnverifiedCertificate, certificates: Vec<UnverifiedCertificate>) -> (r: State)
        requires
            root@.certificate_type == CertificateType::Root,
        ensures
            r.wf(),
            r@.root == root@,
            r@.certificates == insert_all(Map::empty(), unverified_views(certificates@)),
    {
        let _ = root.as_der();
        let ghost root_view = root@;
        let mut state = State { root: root.use_as_root().unwrap(), certificates: Vec::new() };
        assert(trusted_cert_views(state.certificates@) =~= Seq::<CertView>::empty());
        assert(keyed(Seq::<CertView>::empty()) =~= Map::<Seq<u8>, CertView>::empty());
        let ghost all = unverified_views(certificates@);
        let n = certificates.len();
        let mut i: usize = 0;
        while i < n
            invariant
                n == certificates@.len(),
                all == unverified_views(certificates@),
                i <= n,
                state.wf(),
                state@.root == root_view,
                state@.certificates == insert_all(Map::empty(), all.subrange(0, i as int)),
            decreases n - i,
        {
            let c = certificates[i].duplicate();
            let _ = c.as_der();
            state.put(c.mark_as_trusted());
            assert(all.subrange(0, i + 1).drop_last() =~= all.subrange(0, i as int));
            assert(all.subrange(0, i + 1) =~= all.subrange(0, i as int).push(all[i as int]));
            i = i + 1;
        }
        assert(all.subrange(0, n as int) =~= all);
        state
    }
}

/// Rebuilding the certificates of a state from the list it was saved as,
/// in which no SPKI hash occurs twice, gives the same certificates.
pub proof fn lemma_rebuild_from_parts(certs: Seq<CertView>)
    requires
        distinct_keys(certs),
    ensures
        insert_all(Map::empty(), certs) == keyed(certs),
    decreases certs.len(),
{
    if certs.len() == 0 {
        assert(keyed(certs) =~= Map::<Seq<u8>, CertView>::empty());
    } else {
        let init = certs.drop_last();
        let last = certs.last();
        assert(distinct_keys(init));
        lemma_rebuild_from_parts(init);
        if has_spki_hash(init, last.spki_hash) {
            let j = choose|j: int| 0 <= j < init.len() && #[trigger] init[j].spki_hash == last.spki_hash;
            assert(certs[j].spki_hash != certs[certs.len() - 1].spki_hash);
        }
        lemma_keyed_push(init, last);
        assert(init.push(last) =~= certs);
    }
}

/// Two states with the same root and the same stored certificates feed the
/// same bytes into their digests, whatever order the certificates were
/// stored in.
pub proof fn lemma_digest_ignores_storage_order(a: State, b: State)
    requires
        a@ == b@,
    ensures
        a.digest_input() == b.digest_input(),
{
}

/// Whether the certificate a transaction carries is what reading its own DER gives.
pub open spec fn tx_wf(tx: TxView) -> bool {
    match tx {
        TxView::Add(c) => valid_view(c),
        TxView::RemoveExpired(c) => valid_view(c),
    }
}

/// Reverting a transaction after applying it restores the state, whenever
/// the transaction fits the state: an added certificate was not stored yet,
/// and a removed one was stored (as it is for every accepted transaction, at
/// any time).
pub proof fn lemma_revert_undoes_apply(s: StateView, tx: TxView)
    requires
        state_wf(s),
        tx_wf(tx),
        match tx {
            TxView::Add(c) => !s.certificates.contains_key(c.spki_hash),
            TxView::RemoveExpired(c) => s.certificates.contains_key(c.spki_hash) && s.certificates[c.spki_hash].der == c.der,
        },
    ensures
        spec_revert(spec_apply(s, tx), tx) == s,
{
    match tx {
        TxView::Add(c) => {
            assert(s.certificates.insert(c.spki_hash, c).remove(c.spki_hash) =~= s.certificates);
        },
        TxView::RemoveExpired(c) => {
            let stored = s.certificates[c.spki_hash];
            assert(valid_view(stored));
            assert(stored == c);
            assert(s.certificates.remove(c.spki_hash).insert(c.spki_hash, c) =~= s.certificates);
        },
    }
}

/// Applying an accepted transaction keeps every certificate stored under its
/// own SPKI hash; an added certificate is stored under its hash and a removed
/// one is gone.
pub proof fn lemma_apply_keeps_wf(s: StateView, signer: Seq<u8>, time: u64, tx: TxView)
    requires
        state_wf(s),
        tx_wf(tx),
        spec_check(s, signer, time, tx) == CheckOutcome::Accepted,
    ensures
        state_wf(spec_apply(s, tx)),
        tx matches TxView::Add(c) ==> spec_apply(s, tx).certificates[c.spki_hash] == c,
        tx matches TxView::RemoveExpired(c) ==> !spec_apply(s, tx).certificates.contains_key(c.spki_hash),
{
}

} // verus!
