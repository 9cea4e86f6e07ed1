//! Contracts and the fixed contract catalog: the ordered, immutable sequence
//! of execution backends this manager offers for claiming, plus the
//! capability filter used by the variant that re-serves only the contracts a
//! host can actually run.

use vstd::prelude::*;

use crate::backend::Backend;

verus! {

/// A static descriptor of a supported execution backend, offered for
/// claiming. Identified by a 128-bit globally unique identifier.
#[derive(Clone, Copy, PartialEq, Eq, Structural, Debug, Hash)]
pub struct Contract {
    pub uuid: u128,
    pub backend: Backend,
}

/// Which hardware-backed execution technologies the host offers. The no-op
/// backend needs no hardware and is always available.
#[derive(Clone, Copy, PartialEq, Eq, Structural, Debug)]
pub struct Availability {
    pub kvm: bool,
    pub sev: bool,
    pub sgx: bool,
}

impl Contract {
    /// Whether this contract can run under the given hardware availability.
    pub open spec fn spec_supported(self, avail: Availability) -> bool {
        match self.backend {
            Backend::Nil => true,
            Backend::Kvm => avail.kvm,
            Backend::Sev => avail.sev,
            Backend::Sgx => avail.sgx,
        }
    }

    /// Whether this contract's backend is available on the host.
    pub fn is_supported(&self, avail: &Availability) -> (r: bool)
        ensures
            r == self.spec_supported(*avail),
    {
        match self.backend {
            Backend::Nil => true,
            Backend::Kvm => avail.kvm,
            Backend::Sev => avail.sev,
            Backend::Sgx => avail.sgx,
        }
    }
}

/// The catalog: fixed at start time, never mutated, one contract per backend.
pub open spec fn spec_catalog() -> Seq<Contract> {
    seq![
        Contract { uuid: 0xe6234733_513a_4883_981a_bfa972fa706b_u128, backend: Backend::Nil },
        Contract { uuid: 0x0afa438e_acaa_4158_9518_ad59256def34_u128, backend: Backend::Kvm },
        Contract { uuid: 0x31a41b53_cb9e_447b_bfa2_bfb8e6e42ff9_u128, backend: Backend::Sev },
        Contract { uuid: 0xea392851_3435_42d3_a4ad_c4e5e5c6c4c6_u128, backend: Backend::Sgx },
    ]
}

/// Whether some catalog entry carries the given identifier.
pub open spec fn catalog_has(id: u128) -> bool {
    exists|i: int| 0 <= i < spec_catalog().len() && (#[trigger] spec_catalog()[i]).uuid == id
}

/// No two catalog entries share an identifier.
pub proof fn lemma_catalog_ids_unique()
    ensures
        forall|i: int, j: int|
            0 <= i < j < spec_catalog().len() ==> (#[trigger] spec_catalog()[i]).uuid != (
            #[trigger] spec_catalog()[j]).uuid,
{
}

/// The full catalog as an owned list, identical on every call.
pub fn catalog() -> (r: Vec<Contract>)
    ensures
        r@ == spec_catalog(),
{
    let mut v: Vec<Contract> = Vec::new();
    v.push(Contract { uuid: 0xe6234733_513a_4883_981a_bfa972fa706b_u128, backend: Backend::Nil });
    v.push(Contract { uuid: 0x0afa438e_acaa_4158_9518_ad59256def34_u128, backend: Backend::Kvm });
    v.push(Contract { uuid: 0x31a41b53_cb9e_447b_bfa2_bfb8e6e42ff9_u128, backend: Backend::Sev });
    v.push(Contract { uuid: 0xea392851_3435_42d3_a4ad_c4e5e5c6c4c6_u128, backend: Backend::Sgx });
    proof {
        assert(v@ =~= spec_catalog());
    }
    v
}

/// Point lookup in the catalog: the entry carrying `id`, or `None` exactly
/// when no entry does.
pub fn catalog_get(id: u128) -> (r: Option<Contract>)
    ensures
        match r {
            Some(c) => c.uuid == id && spec_catalog().contains(c),
            None => !catalog_has(id),
        },
{
    let all = catalog();
    let mut i: usize = 0;
    while i < all.len()
        invariant
            all@ == spec_catalog(),
            i <= all@.len(),
            forall|j: int| 0 <= j < i ==> (#[trigger] all@[j]).uuid != id,
        decreases all@.len() - i,
    {
        if all[i].uuid == id {
            let c = all[i];
            proof {
                assert(spec_catalog().contains(c));
            }
            return Some(c);
        }
        i += 1;
    }
    None
}

/// The catalog entries whose backend the host can run, in catalog order.
pub fn filter_supported(all: &Vec<Contract>, avail: &Availability) -> (r: Vec<Contract>)
    ensures
        r@ == all@.filter(|c: Contract| c.spec_supported(*avail)),
{
    let mut out: Vec<Contract> = Vec::new();
    let mut i: usize = 0;
    proof {
        assert(all@.take(0) =~= Seq::<Contract>::empty());
        reveal(Seq::filter);
    }
    while i < all.len()
        invariant
            i <= all@.len(),
            out@ == all@.take(i as int).filter(|c: Contract| c.spec_supported(*avail)),
        decreases all@.len() - i,
    {
        let c = all[i];
        proof {
            reveal(Seq::filter);
            assert(all@.take(i + 1).drop_last() =~= all@.take(i as int));
            assert(all@.take(i + 1).last() == c);
        }
        if c.is_supported(avail) {
            out.push(c);
        }
        i += 1;
    }
    proof {
        assert(all@.take(all@.len() as int) =~= all@);
    }
    out
}

} // verus!
