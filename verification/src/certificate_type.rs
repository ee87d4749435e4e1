//! The kinds of certificates that svalin issues, and the rules that tie them
//! together: which kinds act as certificate authorities, which kind may sign
//! which, how long each kind is valid, and how a kind is named in the
//! organizational-unit field of a certificate.

use vstd::prelude::*;

use crate::text::push_chars;
use vstd::string::StringSliceAdditionalSpecFns;

verus! {

/// The role a certificate plays in svalin.
#[derive(Debug, Clone, Copy, PartialEq, Eq, Structural)]
pub enum CertificateType {
    Root,
    Temporary,
    User,
    UserDevice,
    Agent,
    Server,
}

/// Error returned when a name does not denote a certificate type.
#[derive(Debug, Clone, Copy, PartialEq, Eq, Structural)]
pub enum CertificateTypeError {
    InvalidType,
}

/// Whether a certificate of type `t` must carry the CA flag.
pub open spec fn spec_should_be_ca(t: CertificateType) -> bool {
    t == CertificateType::Root || t == CertificateType::User
}

/// Whether a certificate of type `parent` may sign one of type `child`.
pub open spec fn spec_may_be_parent_of(parent: CertificateType, child: CertificateType) -> bool {
    match parent {
        CertificateType::Root => match child {
            CertificateType::Server | CertificateType::User | CertificateType::Agent
            | CertificateType::UserDevice => true,
            _ => false,
        },
        CertificateType::User => match child {
            CertificateType::User | CertificateType::Agent | CertificateType::UserDevice => true,
            _ => false,
        },
        _ => false,
    }
}

/// Seconds in one day.
pub open spec fn day_secs() -> int {
    86400
}

/// The exact validity period, in seconds, that a certificate of type `t` must have.
pub open spec fn spec_validity_secs(t: CertificateType) -> int {
    match t {
        CertificateType::Root => 3650 * day_secs(),
        CertificateType::User => 365 * day_secs(),
        CertificateType::UserDevice => 30 * day_secs(),
        CertificateType::Agent => 365 * day_secs(),
        CertificateType::Server => 3650 * day_secs(),
        CertificateType::Temporary => 60,
    }
}

/// The name of a certificate type, as written in certificates and messages.
pub open spec fn spec_type_name(t: CertificateType) -> Seq<char> {
    match t {
        CertificateType::Root => seq!['r', 'o', 'o', 't'],
        CertificateType::User => seq!['u', 's', 'e', 'r'],
        CertificateType::UserDevice => seq![
            'u', 's', 'e', 'r', '_', 'd', 'e', 'v', 'i', 'c', 'e'
        ],
        CertificateType::Agent => seq!['a', 'g', 'e', 'n', 't'],
        CertificateType::Server => seq!['s', 'e', 'r', 'v', 'e', 'r'],
        CertificateType::Temporary => seq!['t', 'e', 'm', 'p', 'o', 'r', 'a', 'r', 'y'],
    }
}

/// The bytes of an ASCII name.
pub open spec fn ascii_bytes(s: Seq<char>) -> Seq<u8> {
    Seq::new(s.len(), |i: int| s[i] as u8)
}

/// The certificate type whose name has the given (UTF-8) bytes, if any.
pub open spec fn spec_type_from_name(bytes: Seq<u8>) -> Option<CertificateType> {
    if bytes == ascii_bytes(spec_type_name(CertificateType::Root)) {
        Some(CertificateType::Root)
    } else if bytes == ascii_bytes(spec_type_name(CertificateType::User)) {
        Some(CertificateType::User)
    } else if bytes == ascii_bytes(spec_type_name(CertificateType::UserDevice)) {
        Some(CertificateType::UserDevice)
    } else if bytes == ascii_bytes(spec_type_name(CertificateType::Agent)) {
        Some(CertificateType::Agent)
    } else if bytes == ascii_bytes(spec_type_name(CertificateType::Server)) {
        Some(CertificateType::Server)
    } else if bytes == ascii_bytes(spec_type_name(CertificateType::Temporary)) {
        Some(CertificateType::Temporary)
    } else {
        None
    }
}

fn bytes_equal(a: &[u8], b: &[u8]) -> (r: bool)
    ensures
        r == (a@ == b@),
{
    if a.len() != b.len() {
        return false;
    }
    let mut i: usize = 0;
    while i < a.len()
        invariant
            a@.len() == b@.len(),
            i <= a@.len(),
            forall|j: int| 0 <= j < i ==> a@[j] == b@[j],
        decreases a@.len() - i,
    {
        if a[i] != b[i] {
            return false;
        }
        i = i + 1;
    }
    assert(a@ =~= b@);
    true
}

impl CertificateType {
    /// Whether certificates of this type are certificate authorities.
    pub fn should_be_ca(&self) -> (r: bool)
        ensures
            r == spec_should_be_ca(*self),
            r <==> (*self == CertificateType::Root || *self == CertificateType::User),
    {
        match self {
            CertificateType::Root => true,
            CertificateType::User => true,
            CertificateType::UserDevice => false,
            CertificateType::Agent => false,
            CertificateType::Server => false,
            CertificateType::Temporary => false,
        }
    }

    /// The validity period, in seconds, that certificates of this type must have.
    pub fn validity_duration_secs(&self) -> (r: i64)
        ensures
            r == spec_validity_secs(*self),
            (*self == CertificateType::Root || *self == CertificateType::Server) ==> r == 3650 * 86400,
            (*self == CertificateType::User || *self == CertificateType::Agent) ==> r == 365 * 86400,
            *self == CertificateType::UserDevice ==> r == 30 * 86400,
            *self == CertificateType::Temporary ==> r == 60,
    {
        match self {
            CertificateType::Root => 3650 * 86400,
            CertificateType::User => 365 * 86400,
            CertificateType::UserDevice => 30 * 86400,
            CertificateType::Agent => 365 * 86400,
            CertificateType::Server => 3650 * 86400,
            CertificateType::Temporary => 60,
        }
    }

    /// Whether a certificate of this type may sign a certificate of type `child_type`.
    pub fn may_be_parent_of(&self, child_type: CertificateType) -> (r: bool)
        ensures
            r == spec_may_be_parent_of(*self, child_type),
            *self == CertificateType::Root ==> (r <==> (child_type == CertificateType::Server || child_type
                == CertificateType::User || child_type == CertificateType::Agent || child_type == CertificateType::UserDevice)),
            *self == CertificateType::User ==> (r <==> (child_type == CertificateType::User || child_type
                == CertificateType::Agent || child_type == CertificateType::UserDevice)),
            !(*self == CertificateType::Root || *self == CertificateType::User) ==> !r,
    {
        match self {
            CertificateType::Root => match child_type {
                CertificateType::Root => false,
                CertificateType::Server => true,
                CertificateType::User => true,
                CertificateType::Agent => true,
                CertificateType::UserDevice => true,
                CertificateType::Temporary => false,
            },
            CertificateType::User => match child_type {
                CertificateType::Root => false,
                CertificateType::Server => false,
                CertificateType::User => true,
                CertificateType::Agent => true,
                CertificateType::UserDevice => true,
                CertificateType::Temporary => false,
            },
            CertificateType::UserDevice => false,
            CertificateType::Agent => false,
            CertificateType::Server => false,
            CertificateType::Temporary => false,
        }
    }

    /// The characters of this type's name.
    fn name_chars(&self) -> (r: Vec<char>)
        ensures
            r@ == spec_type_name(*self),
    {
        let r = match self {
            CertificateType::Root => vec!['r', 'o', 'o', 't'],
            CertificateType::User => vec!['u', 's', 'e', 'r'],
            CertificateType::UserDevice => vec![
                'u', 's', 'e', 'r', '_', 'd', 'e', 'v', 'i', 'c', 'e'
            ],
            CertificateType::Agent => vec!['a', 'g', 'e', 'n', 't'],
            CertificateType::Server => vec!['s', 'e', 'r', 'v', 'e', 'r'],
            CertificateType::Temporary => vec!['t', 'e', 'm', 'p', 'o', 'r', 'a', 'r', 'y'],
        };
        assert(r@ =~= spec_type_name(*self));
        r
    }

    /// The name of this type (`root`, `user`, `user_device`, `agent`, `server`, `temporary`).
    pub fn to_string(&self) -> (r: String)
        ensures
            r@ == spec_type_name(*self),
    {
        let mut s = String::new();
        let chars = self.name_chars();
        push_chars(&mut s, chars.as_slice());
        s
    }

    /// The ASCII bytes of this type's name.
    fn name_bytes(&self) -> (r: Vec<u8>)
        ensures
            r@ == ascii_bytes(spec_type_name(*self)),
    {
        let r = match self {
            CertificateType::Root => vec![114u8, 111u8, 111u8, 116u8],
            CertificateType::User => vec![117u8, 115u8, 101u8, 114u8],
            CertificateType::UserDevice => vec![
                117u8, 115u8, 101u8, 114u8, 95u8, 100u8, 101u8, 118u8, 105u8, 99u8, 101u8
            ],
            CertificateType::Agent => vec![97u8, 103u8, 101u8, 110u8, 116u8],
            CertificateType::Server => vec![115u8, 101u8, 114u8, 118u8, 101u8, 114u8],
            CertificateType::Temporary => vec![
                116u8, 101u8, 109u8, 112u8, 111u8, 114u8, 97u8, 114u8, 121u8
            ],
        };
        assert(r@ =~= ascii_bytes(spec_type_name(*self)));
        r
    }

    /// Parses a certificate type from the UTF-8 bytes of its name.
    pub fn from_name_bytes(bytes: &[u8]) -> (r: Result<CertificateType, CertificateTypeError>)
        ensures
            match spec_type_from_name(bytes@) {
                Some(t) => r == Ok::<CertificateType, CertificateTypeError>(t),
                None => r is Err,
            },
    {
        if bytes_equal(bytes, CertificateType::Root.name_bytes().as_slice()) {
            Ok(CertificateType::Root)
        } else if bytes_equal(bytes, CertificateType::User.name_bytes().as_slice()) {
            Ok(CertificateType::User)
        } else if bytes_equal(bytes, CertificateType::UserDevice.name_bytes().as_slice()) {
            Ok(CertificateType::UserDevice)
        } else if bytes_equal(bytes, CertificateType::Agent.name_bytes().as_slice()) {
            Ok(CertificateType::Agent)
        } else if bytes_equal(bytes, CertificateType::Server.name_bytes().as_slice()) {
            Ok(CertificateType::Server)
        } else if bytes_equal(bytes, CertificateType::Temporary.name_bytes().as_slice()) {
            Ok(CertificateType::Temporary)
        } else {
            Err(CertificateTypeError::InvalidType)
        }
    }

    /// Parses a certificate type from its name.
    pub fn from_str(s: &str) -> (r: Result<CertificateType, CertificateTypeError>)
        ensures
            match spec_type_from_name(s.spec_bytes()) {
                Some(t) => r == Ok::<CertificateType, CertificateTypeError>(t),
                None => r is Err,
            },
    {
        Self::from_name_bytes(s.as_bytes())
    }
}

/// Reading a type's name back gives the same type.
pub proof fn lemma_type_name_round_trip(t: CertificateType)
    ensures
        spec_type_from_name(ascii_bytes(spec_type_name(t))) == Some(t),
{
    assert(ascii_bytes(spec_type_name(CertificateType::Root)) =~= seq![114u8, 111, 111, 116]);
    assert(ascii_bytes(spec_type_name(CertificateType::User)) =~= seq![117u8, 115, 101, 114]);
    assert(ascii_bytes(spec_type_name(CertificateType::Agent)) =~= seq![97u8, 103, 101, 110, 116]);
    assert(ascii_bytes(spec_type_name(CertificateType::Server)) =~= seq![115u8, 101, 114, 118, 101, 114]);
    assert(ascii_bytes(spec_type_name(CertificateType::UserDevice)) =~= seq![117u8, 115, 101, 114, 95, 100, 101, 118, 105, 99, 101]);
    assert(ascii_bytes(spec_type_name(CertificateType::Temporary)) =~= seq![116u8, 101, 109, 112, 111, 114, 97, 114, 121]);
}

/// Only certificate authorities sign certificates, and nothing signs a root
/// or a temporary certificate; servers are signed by the root alone.
pub proof fn lemma_parent_rules(parent: CertificateType, child: CertificateType)
    requires
        spec_may_be_parent_of(parent, child),
    ensures
        spec_should_be_ca(parent),
        child != CertificateType::Root,
        child != CertificateType::Temporary,
        child == CertificateType::Server ==> parent == CertificateType::Root,
{
}

} // verus!
