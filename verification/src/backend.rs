//! The closed enumeration of execution backends a contract may target: a
//! no-op backend and three hardware-isolation technologies.

use vstd::prelude::*;

verus! {

/// An execution backend a contract may target.
#[derive(Clone, Copy, PartialEq, Eq, Structural, Debug, Hash)]
pub enum Backend {
    Nil,
    Sev,
    Sgx,
    Kvm,
}

/// Error returned when a string names no known backend.
#[derive(Clone, Copy, Debug)]
pub struct UnknownBackend;

impl Backend {
    /// The lower-case wire label of this backend.
    pub open spec fn spec_label(self) -> Seq<char> {
        match self {
            Backend::Nil => "nil"@,
            Backend::Sev => "sev"@,
            Backend::Sgx => "sgx"@,
            Backend::Kvm => "kvm"@,
        }
    }

    /// The lower-case name of this backend, as it appears on the wire.
    pub fn as_str(&self) -> (r: &'static str)
        ensures
            r@ == self.spec_label(),
    {
        match *self {
            Backend::Nil => "nil",
            Backend::Sev => "sev",
            Backend::Sgx => "sgx",
            Backend::Kvm => "kvm",
        }
    }

    /// Parses a backend from its lower-case name; every other string is
    /// rejected.
    pub fn from_str(s: &str) -> (r: Result<Backend, UnknownBackend>)
        ensures
            match r {
                Ok(b) => s@ == b.spec_label(),
                Err(_) => forall|b: Backend| s@ != #[trigger] b.spec_label(),
            },
    {
        proof {
            reveal_strlit("nil");
            reveal_strlit("sev");
            reveal_strlit("sgx");
            reveal_strlit("kvm");
        }
        if s.unicode_len() != 3 {
            return Err(UnknownBackend);
        }
        let c0 = s.get_char(0);
        let c1 = s.get_char(1);
        let c2 = s.get_char(2);
        if c0 == 'n' && c1 == 'i' && c2 == 'l' {
            proof {
                assert(s@ =~= "nil"@);
            }
            Ok(Backend::Nil)
        } else if c0 == 's' && c1 == 'e' && c2 == 'v' {
            proof {
                assert(s@ =~= "sev"@);
            }
            Ok(Backend::Sev)
        } else if c0 == 's' && c1 == 'g' && c2 == 'x' {
            proof {
                assert(s@ =~= "sgx"@);
            }
            Ok(Backend::Sgx)
        } else if c0 == 'k' && c1 == 'v' && c2 == 'm' {
            proof {
                assert(s@ =~= "kvm"@);
            }
            Ok(Backend::Kvm)
        } else {
            Err(UnknownBackend)
        }
    }
}

} // verus!
