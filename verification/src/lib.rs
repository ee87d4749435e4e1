//! Verified core of the svalin public-key infrastructure: certificate
//! classification and validation, certificate chains, the trust-store state
//! machine, symmetric and hybrid encryption framing, password hashing
//! parameters and the MLS group bookkeeping rules.

pub mod argon;
pub mod certificate;
pub mod certificate_chain;
pub mod certificate_type;
pub mod credential;
pub mod digest;
pub mod encrypt;
pub mod hex;
pub mod human_bytes;
pub mod hybrid;
pub mod keypair;
pub mod keys;
pub mod mls;
pub mod profile_picker;
pub mod spki_hash;
pub mod x509;
pub mod text;
pub mod trust_store;
pub mod ui;

use vstd::prelude::*;

verus! {

} // verus!
