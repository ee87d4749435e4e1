//! Password hashing parameters (Argon2id) and password hashes: the two cost
//! presets, salts (random, or derived from a seed), key derivation and
//! password verification. The hashing itself is done by the `argon2` crate.

use vstd::prelude::*;

use crate::digest::{sha512_256, sha512_256_digest};

verus! {

#[verifier::external_type_specification]
#[verifier::external_body]
pub struct ExArgon2Error(argon2::Error);

#[verifier::external_type_specification]
#[verifier::external_body]
pub struct ExJoinError(tokio::task::JoinError);

/// Whether `argon2::Params::new(m_cost, t_cost, p_cost, None)` accepts the costs.
pub open spec fn argon_params_valid(m_cost: u32, t_cost: u32, p_cost: u32) -> bool {
    &&& m_cost >= 8
    &&& m_cost as int >= 8 * p_cost as int
    &&& t_cost >= 1
    &&& 1 <= p_cost <= 0xFFFFFF
}

/// The 32-byte Argon2id (version 0x10) hash of `pwd` with `salt` and the given costs.
pub uninterp spec fn argon2id_hash(m_cost: u32, t_cost: u32, p_cost: u32, pwd: Seq<u8>, salt: Seq<u8>) -> Seq<u8>;

/// Whether `hash_password_into` accepts a password and salt of these lengths
/// (password at most `u32::MAX` bytes, salt between 8 and `u32::MAX` bytes).
pub open spec fn argon_inputs_ok(pwd_len: nat, salt_len: nat) -> bool {
    pwd_len <= 0xFFFF_FFFF && 8 <= salt_len <= 0xFFFF_FFFF
}

/// The value of parameter `name` in the PHC parameter string `params`, read
/// as a decimal, as `argon2::password_hash::ParamsString::get_decimal` gives it.
pub uninterp spec fn params_decimal(params: Seq<char>, name: Seq<char>) -> Option<u32>;

/// Hashes with `argon2`: `Params::new(m_cost, t_cost, p_cost, None)`,
/// `Argon2::new(Argon2id, V0x10, params)` and `hash_password_into` a 32-byte
/// output. Trusted: the hash is a function of the inputs, named
/// `argon2id_hash`; the call fails exactly when the password or salt length is
/// out of the bounds that the crate's `verify_inputs` checks.
#[verifier::external_body]
fn argon2id_hash_into(m_cost: u32, t_cost: u32, p_cost: u32, pwd: &[u8], salt: &[u8]) -> (r: Result<[u8; 32], argon2::Error>)
    requires
        argon_params_valid(m_cost, t_cost, p_cost),
    ensures
        argon_inputs_ok(pwd@.len(), salt@.len()) <==> r is Ok,
        r is Ok ==> r->Ok_0@ == argon2id_hash(m_cost, t_cost, p_cost, pwd@, salt@),
{
    let params = argon2::Params::new(m_cost, t_cost, p_cost, None).unwrap();
    let argon = argon2::Argon2::new(argon2::Algorithm::Argon2id, argon2::Version::V0x10, params);
    let mut hash = [0u8; 32];
    argon.hash_password_into(pwd, salt, &mut hash).map(|_| hash)
}

/// Reads parameter `name` of the PHC parameter string `params` with
/// `ParamsString::get_decimal` (after parsing the text as a `ParamsString`).
/// Trusted: the value is a function of the two texts, named `params_decimal`.
#[verifier::external_body]
fn params_get_decimal(params: &str, name: &str) -> (r: Option<u32>)
    ensures
        r == params_decimal(params@, name@),
{
    params.parse::<argon2::password_hash::ParamsString>().ok().and_then(|p| p.get_decimal(name))
}

/// Draws 32 random bytes from `rand::rng()`. Nothing is promised of the
/// bytes but their number.
#[verifier::external_body]
fn random_bytes_32() -> (r: Vec<u8>)
    ensures
        r@.len() == 32,
{
    rand::Rng::sample_iter(rand::rng(), rand::distr::StandardUniform).take(32).collect()
}

/// Overwrites the bytes of `v` with zeros and empties it (`zeroize::Zeroize`).
#[verifier::external_body]
fn zeroize_bytes(v: &mut Vec<u8>)
    ensures
        final(v)@.len() == 0,
{
    zeroize::Zeroize::zeroize(v);
}

/// The three Argon2 cost parameters.
#[derive(Debug, Clone, Copy, PartialEq, Eq, Structural)]
pub struct ArgonCost {
    m_cost: u32,
    t_cost: u32,
    p_cost: u32,
}

/// Why a parameter string does not give the costs.
#[derive(Debug)]
pub enum ParamsStringParseError {
    MCostUnavailable,
    TCostUnavailable,
    PCostUnavailable,
}

impl ArgonCost {
    pub closed spec fn m(&self) -> u32 {
        self.m_cost
    }

    pub closed spec fn t(&self) -> u32 {
        self.t_cost
    }

    pub closed spec fn p(&self) -> u32 {
        self.p_cost
    }

    /// Whether the costs are accepted by Argon2.
    pub open spec fn valid(&self) -> bool {
        argon_params_valid(self.m(), self.t(), self.p())
    }

    /// The strong preset: 128 MiB memory, 2 passes, 8 lanes.
    pub fn strong() -> (r: ArgonCost)
        ensures
            r.m() == 128 * 1024 && r.t() == 2 && r.p() == 8,
            r.valid(),
    {
        ArgonCost { m_cost: 128 * 1024, t_cost: 2, p_cost: 8 }
    }

    /// The basic preset: 32 MiB memory, 2 passes, 4 lanes.
    pub fn basic() -> (r: ArgonCost)
        ensures
            r.m() == 32 * 1024 && r.t() == 2 && r.p() == 4,
            r.valid(),
    {
        ArgonCost { m_cost: 32 * 1024, t_cost: 2, p_cost: 4 }
    }

    /// Costs given explicitly.
    pub fn new(m_cost: u32, t_cost: u32, p_cost: u32) -> (r: ArgonCost)
        ensures
            r.m() == m_cost && r.t() == t_cost && r.p() == p_cost,
    {
        ArgonCost { m_cost, t_cost, p_cost }
    }

    pub fn m_cost(&self) -> (r: u32)
        ensures
            r == self.m(),
    {
        self.m_cost
    }

    pub fn t_cost(&self) -> (r: u32)
        ensures
            r == self.t(),
    {
        self.t_cost
    }

    pub fn p_cost(&self) -> (r: u32)
        ensures
            r == self.p(),
    {
        self.p_cost
    }

    /// Reads the costs `m`, `t` and `p` from a PHC parameter string.
    pub fn try_from_params_string(params: &str) -> (r: Result<ArgonCost, ParamsStringParseError>)
        ensures
            params_decimal(params@, "m"@) is None ==> r matches Err(ParamsStringParseError::MCostUnavailable),
            params_decimal(params@, "m"@) is Some && params_decimal(params@, "t"@) is None
                ==> r matches Err(ParamsStringParseError::TCostUnavailable),
            params_decimal(params@, "m"@) is Some && params_decimal(params@, "t"@) is Some
                && params_decimal(params@, "p"@) is None ==> r matches Err(ParamsStringParseError::PCostUnavailable),
            r is Ok ==> r->Ok_0.m() == params_decimal(params@, "m"@)->0 && r->Ok_0.t() == params_decimal(params@, "t"@)->0
                && r->Ok_0.p() == params_decimal(params@, "p"@)->0,
            params_decimal(params@, "m"@) is Some && params_decimal(params@, "t"@) is Some
                && params_decimal(params@, "p"@) is Some ==> r is Ok,
    {
        let m_cost = match params_get_decimal(params, "m") {
            Some(v) => v,
            None => return Err(ParamsStringParseError::MCostUnavailable),
        };
        let t_cost = match params_get_decimal(params, "t") {
            Some(v) => v,
            None => return Err(ParamsStringParseError::TCostUnavailable),
        };
        let p_cost = match params_get_decimal(params, "p") {
            Some(v) => v,
            None => return Err(ParamsStringParseError::PCostUnavailable),
        };
        Ok(ArgonCost { m_cost, t_cost, p_cost })
    }
}

/// Why deriving a key failed.
#[derive(Debug)]
pub enum DeriveKeyError {
    HashError(argon2::Error),
    JoinError(tokio::task::JoinError),
}

/// Argon2 costs and a salt.
#[derive(Debug)]
pub struct ArgonParams {
    cost: ArgonCost,
    salt: Vec<u8>,
}

/// The salt derived from a seed: the SHA-512/256 digest of the seed.
pub open spec fn spec_fake_salt(seed: Seq<u8>) -> Seq<u8> {
    sha512_256(seed)
}

/// The key that `params_cost` and `salt` derive from `secret`, if Argon2 accepts the inputs.
pub open spec fn spec_derive_key(cost: ArgonCost, salt: Seq<u8>, secret: Seq<u8>) -> Option<Seq<u8>> {
    if argon_inputs_ok(secret.len(), salt.len()) {
        Some(argon2id_hash(cost.m(), cost.t(), cost.p(), secret, salt))
    } else {
        None
    }
}

impl ArgonParams {
    pub closed spec fn cost(&self) -> ArgonCost {
        self.cost
    }

    pub closed spec fn salt(&self) -> Seq<u8> {
        self.salt@
    }

    fn random_salt() -> (r: Vec<u8>)
        ensures
            r@.len() == 32,
    {
        random_bytes_32()
    }

    fn fake_salt(seed: &[u8]) -> (r: Vec<u8>)
        ensures
            r@ == spec_fake_salt(seed@),
    {
        sha512_256_digest(seed)
    }

    /// Strong costs with a random 32-byte salt.
    pub fn strong() -> (r: ArgonParams)
        ensures
            is_strong(r.cost()),
            r.salt().len() == 32,
    {
        Self::strong_with_salt(Self::random_salt())
    }

    /// Strong costs with the salt derived from `seed`.
    pub fn strong_with_fake_salt(seed: &[u8]) -> (r: ArgonParams)
        ensures
            is_strong(r.cost()),
            r.salt() == spec_fake_salt(seed@),
    {
        Self::strong_with_salt(Self::fake_salt(seed))
    }

    /// Strong costs with the given salt.
    pub fn strong_with_salt(salt: Vec<u8>) -> (r: ArgonParams)
        ensures
            is_strong(r.cost()),
            r.salt() == salt@,
    {
        ArgonParams { cost: ArgonCost::strong(), salt }
    }

    /// Basic costs with a random 32-byte salt.
    pub fn basic() -> (r: ArgonParams)
        ensures
            is_basic(r.cost()),
            r.salt().len() == 32,
    {
        Self::basic_with_salt(Self::random_salt())
    }

    /// Basic costs with the salt derived from `seed`.
    pub fn basic_with_fake_salt(seed: &[u8]) -> (r: ArgonParams)
        ensures
            is_basic(r.cost()),
            r.salt() == spec_fake_salt(seed@),
    {
        Self::basic_with_salt(Self::fake_salt(seed))
    }

    /// Basic costs with the given salt.
    pub fn basic_with_salt(salt: Vec<u8>) -> (r: ArgonParams)
        ensures
            is_basic(r.cost()),
            r.salt() == salt@,
    {
        ArgonParams { cost: ArgonCost::basic(), salt }
    }

    /// Parameters from explicit costs and salt.
    pub fn from_parts(cost: ArgonCost, salt: Vec<u8>) -> (r: ArgonParams)
        ensures
            r.cost() == cost,
            r.salt() == salt@,
    {
        ArgonParams { cost, salt }
    }

    /// The costs.
    pub fn get_cost(&self) -> (r: ArgonCost)
        ensures
            r == self.cost(),
    {
        self.cost
    }

    /// The salt.
    pub fn get_salt(&self) -> (r: &[u8])
        ensures
            r@ == self.salt(),
    {
        self.salt.as_slice()
    }

    /// Derives a 32-byte key from `secret` with Argon2id; the secret is wiped afterwards.
    pub fn derive_key(&self, secret: Vec<u8>) -> (r: Result<[u8; 32], DeriveKeyError>)
        requires
            self.cost().valid(),
        ensures
            spec_derive_key(self.cost(), self.salt(), secret@) is Some <==> r is Ok,
            r is Ok ==> r->Ok_0@ == spec_derive_key(self.cost(), self.salt(), secret@)->0,
            r is Err ==> r->Err_0 is HashError,
    {
        let mut secret = secret;
        let result = argon2id_hash_into(
            self.cost.m_cost,
            self.cost.t_cost,
            self.cost.p_cost,
            secret.as_slice(),
            self.salt.as_slice(),
        );
        zeroize_bytes(&mut secret);
        match result {
            Ok(hash) => Ok(hash),
            Err(e) => Err(DeriveKeyError::HashError(e)),
        }
    }

    /// Derives the hash of `secret` and keeps it with these parameters.
    pub fn derive_password_hash(self, secret: Vec<u8>) -> (r: Result<PasswordHash, DeriveKeyError>)
        requires
            self.cost().valid(),
        ensures
            spec_derive_key(self.cost(), self.salt(), secret@) is Some <==> r is Ok,
            r is Ok ==> r->Ok_0.params_cost() == self.cost() && r->Ok_0.params_salt() == self.salt()
                && r->Ok_0.hash() == spec_derive_key(self.cost(), self.salt(), secret@)->0,
    {
        match self.derive_key(secret) {
            Ok(hash) => Ok(PasswordHash { params: self, hash }),
            Err(e) => Err(e),
        }
    }
}

/// The strong preset: 128 MiB memory, 2 passes, 8 lanes.
pub open spec fn is_strong(c: ArgonCost) -> bool {
    c.m() == 131072 && c.t() == 2 && c.p() == 8
}

/// The basic preset: 32 MiB memory, 2 passes, 4 lanes.
pub open spec fn is_basic(c: ArgonCost) -> bool {
    c.m() == 32768 && c.t() == 2 && c.p() == 4
}

/// A password hash together with the parameters that produced it.
#[derive(Debug)]
pub struct PasswordHash {
    params: ArgonParams,
    hash: [u8; 32],
}

/// What verifying `secret` against a hash with the given parameters gives:
/// `None` where Argon2 refuses the inputs, else whether the hashes agree.
pub open spec fn spec_verify(cost: ArgonCost, salt: Seq<u8>, hash: Seq<u8>, secret: Seq<u8>) -> Option<bool> {
    match spec_derive_key(cost, salt, secret) {
        Some(h) => Some(h == hash),
        None => None,
    }
}

impl PasswordHash {
    pub closed spec fn params_cost(&self) -> ArgonCost {
        self.params.cost
    }

    pub closed spec fn params_salt(&self) -> Seq<u8> {
        self.params.salt@
    }

    pub closed spec fn hash(&self) -> Seq<u8> {
        self.hash@
    }

    /// Rebuilds a password hash from its parts.
    pub fn from_parts(params: ArgonParams, hash: [u8; 32]) -> (r: PasswordHash)
        ensures
            r.params_cost() == params.cost(),
            r.params_salt() == params.salt(),
            r.hash() == hash@,
    {
        PasswordHash { params, hash }
    }

    /// The parameters.
    pub fn params(&self) -> (r: &ArgonParams)
        ensures
            r.cost() == self.params_cost(),
            r.salt() == self.params_salt(),
    {
        &self.params
    }

    /// The hash bytes.
    pub fn hash_bytes(&self) -> (r: &[u8; 32])
        ensures
            r@ == self.hash(),
    {
        &self.hash
    }

    /// Whether `secret` hashes to this hash under these parameters.
    pub fn verify(&self, secret: Vec<u8>) -> (r: Result<bool, DeriveKeyError>)
        requires
            self.params_cost().valid(),
        ensures
            spec_verify(self.params_cost(), self.params_salt(), self.hash(), secret@) is Some <==> r is Ok,
            r is Ok ==> r->Ok_0 == spec_verify(self.params_cost(), self.params_salt(), self.hash(), secret@)->0,
    {
        let hash = match self.params.derive_key(secret) {
            Ok(h) => h,
            Err(e) => return Err(e),
        };
        let mut i: usize = 0;
        while i < 32
            invariant
                i <= 32,
                hash@.len() == 32,
                self.hash@.len() == 32,
                spec_derive_key(self.params_cost(), self.params_salt(), secret@) == Some(hash@),
                forall|j: int| 0 <= j < i ==> hash@[j] == self.hash@[j],
            decreases 32 - i,
        {
            if hash[i] != self.hash[i] {
                assert(hash@ != self.hash@);
                return Ok(false);
            }
            i = i + 1;
        }
        assert(hash@ =~= self.hash@);
        Ok(true)
    }
}

/// A password verifies against the hash derived from it with the same parameters.
pub proof fn lemma_verify_own_hash(cost: ArgonCost, salt: Seq<u8>, secret: Seq<u8>)
    requires
        spec_derive_key(cost, salt, secret) is Some,
    ensures
        spec_verify(cost, salt, spec_derive_key(cost, salt, secret)->0, secret) == Some(true),
{
}

} // verus!
