//! The keep registry: a mapping from keep identifier to keep record, keys
//! unique, owned by the process for its lifetime. Claims add entries, deletes
//! remove them, and every value handed out is a copy, never a shared
//! reference into server-held state.

use vstd::prelude::*;

use crate::contract::Contract;

verus! {

/// An isolated execution context instance: a fresh unique identifier bound to
/// a copy of the contract it was claimed against. Immutable once created.
#[derive(Clone, Copy, PartialEq, Eq, Structural, Debug)]
pub struct Keep {
    pub uuid: u128,
    pub contract: Contract,
}

/// Whether some record in `s` carries the identifier `id`.
pub open spec fn seq_has_id(s: Seq<Keep>, id: u128) -> bool {
    exists|i: int| 0 <= i < s.len() && (#[trigger] s[i]).uuid == id
}

/// No two records in `s` share an identifier.
pub open spec fn unique_ids(s: Seq<Keep>) -> bool {
    forall|i: int, j: int| 0 <= i < j < s.len() ==> (#[trigger] s[i]).uuid != (#[trigger] s[j]).uuid
}

/// The keep registry. The abstract state is the sequence of stored records;
/// their order carries no meaning and is not part of any promise beyond the
/// exact clauses below.
pub struct Registry {
    keeps: Vec<Keep>,
}

impl View for Registry {
    type V = Seq<Keep>;

    closed spec fn view(&self) -> Seq<Keep> {
        self.keeps@
    }
}

impl Registry {
    /// The registry invariant: stored identifiers are pairwise distinct.
    pub open spec fn wf(self) -> bool {
        unique_ids(self@)
    }

    /// Whether a record with identifier `id` is stored.
    pub open spec fn has_keep(self, id: u128) -> bool {
        seq_has_id(self@, id)
    }

    /// A new, empty registry.
    pub fn new() -> (r: Registry)
        ensures
            r@ =~= Seq::<Keep>::empty(),
            r.wf(),
    {
        Registry { keeps: Vec::new() }
    }

    /// How many keeps are stored.
    pub fn len(&self) -> (r: usize)
        ensures
            r == self@.len(),
    {
        self.keeps.len()
    }

    /// The index of the record carrying `id`, if any.
    fn index_of(&self, id: u128) -> (r: Option<usize>)
        ensures
            match r {
                Some(i) => i < self@.len() && self@[i as int].uuid == id,
                None => !self.has_keep(id),
            },
    {
        let mut i: usize = 0;
        while i < self.keeps.len()
            invariant
                i <= self@.len(),
                forall|j: int| 0 <= j < i ==> (#[trigger] self@[j]).uuid != id,
            decreases self@.len() - i,
        {
            if self.keeps[i].uuid == id {
                return Some(i);
            }
            i += 1;
        }
        None
    }

    /// The stored record carrying `id`, as a copy, or `None` exactly when no
    /// record does. Under `wf` the returned record is the unique one with
    /// that identifier.
    pub fn get(&self, id: u128) -> (r: Option<Keep>)
        ensures
            match r {
                Some(k) => k.uuid == id && self@.contains(k),
                None => !self.has_keep(id),
            },
    {
        match self.index_of(id) {
            Some(i) => {
                let k = self.keeps[i];
                proof {
                    assert(self@.contains(k));
                }
                Some(k)
            },
            None => None,
        }
    }

    /// A point-in-time copy of every stored record.
    pub fn list(&self) -> (r: Vec<Keep>)
        ensures
            r@ == self@,
    {
        let mut out: Vec<Keep> = Vec::new();
        let mut i: usize = 0;
        while i < self.keeps.len()
            invariant
                i <= self@.len(),
                out@ =~= self@.take(i as int),
            decreases self@.len() - i,
        {
            out.push(self.keeps[i]);
            proof {
                assert(out@ =~= self@.take(i + 1));
            }
            i += 1;
        }
        proof {
            assert(self@.take(self@.len() as int) =~= self@);
        }
        out
    }

    /// Stores the record for a claim of `contract` under the fresh identifier
    /// `kid` and returns a copy of the stored record. If `kid` is already
    /// present — which a 128-bit random identifier makes negligibly unlikely —
    /// the old record gives way, exactly as a map insert would have it.
    pub fn claim_with_id(&mut self, contract: Contract, kid: u128) -> (r: Keep)
        requires
            old(self).wf(),
        ensures
            final(self).wf(),
            r == (Keep { uuid: kid, contract }),
            final(self).has_keep(kid),
            !old(self).has_keep(kid) ==> final(self)@ == old(self)@.push(r),
            old(self).has_keep(kid) ==> exists|i: int|
                0 <= i < old(self)@.len() && (#[trigger] old(self)@[i]).uuid == kid && final(
                self)@ == old(self)@.remove(i).push(r),
    {
        let keep = Keep { uuid: kid, contract };
        match self.index_of(kid) {
            Some(i) => {
                let ghost pre = self@;
                self.keeps.remove(i);
                proof {
                    lemma_remove_keeps_unique(pre, i as int);
                    lemma_remove_id_absent(pre, i as int, kid);
                }
                self.keeps.push(keep);
                proof {
                    lemma_push_fresh_unique(pre.remove(i as int), keep);
                    assert(final(self)@[final(self)@.len() - 1].uuid == kid);
                }
            },
            None => {
                let ghost pre = self@;
                self.keeps.push(keep);
                proof {
                    lemma_push_fresh_unique(pre, keep);
                    assert(final(self)@[final(self)@.len() - 1].uuid == kid);
                }
            },
        }
        keep
    }

    /// Removes the record carrying `id` and returns it, or returns `None` —
    /// and changes nothing — exactly when no record carries `id`. Deleting is
    /// final: afterwards no record carries `id`.
    pub fn delete(&mut self, id: u128) -> (r: Option<Keep>)
        requires
            old(self).wf(),
        ensures
            final(self).wf(),
            !final(self).has_keep(id),
            match r {
                Some(k) => k.uuid == id && old(self)@.contains(k) && exists|i: int|
                    0 <= i < old(self)@.len() && (#[trigger] old(self)@[i]).uuid == id && final(
                    self)@ == old(self)@.remove(i),
                None => !old(self).has_keep(id) && final(self)@ == old(self)@,
            },
    {
        match self.index_of(id) {
            Some(i) => {
                let ghost pre = self@;
                let k = self.keeps.remove(i);
                proof {
                    assert(pre.contains(k));
                    lemma_remove_keeps_unique(pre, i as int);
                    lemma_remove_id_absent(pre, i as int, id);
                }
                Some(k)
            },
            None => None,
        }
    }
}

/// Removing a record keeps the remaining identifiers pairwise distinct.
pub proof fn lemma_remove_keeps_unique(s: Seq<Keep>, i: int)
    requires
        unique_ids(s),
        0 <= i < s.len(),
    ensures
        unique_ids(s.remove(i)),
{
    let t = s.remove(i);
    assert forall|p: int, q: int| 0 <= p < q < t.len() implies (#[trigger] t[p]).uuid != (
    #[trigger] t[q]).uuid by {
        let p0 = if p < i { p } else { p + 1 };
        let q0 = if q < i { q } else { q + 1 };
        assert(t[p] == s[p0]);
        assert(t[q] == s[q0]);
    }
}

/// Deleting is exclusive and final: once the record carrying `id` at index
/// `i` is removed from a registry with pairwise-distinct identifiers, no
/// remaining record carries `id` — so a second delete of the same identifier
/// signals not-found, and `id` no longer appears in any listing.
pub proof fn lemma_remove_id_absent(s: Seq<Keep>, i: int, id: u128)
    requires
        unique_ids(s),
        0 <= i < s.len(),
        s[i].uuid == id,
    ensures
        !seq_has_id(s.remove(i), id),
{
    let t = s.remove(i);
    assert forall|p: int| 0 <= p < t.len() implies (#[trigger] t[p]).uuid != id by {
        let p0 = if p < i { p } else { p + 1 };
        assert(t[p] == s[p0]);
    }
}

/// Claiming under an identifier not yet stored grows the registry by exactly
/// one record and keeps identifiers pairwise distinct.
pub proof fn lemma_push_fresh_unique(s: Seq<Keep>, k: Keep)
    requires
        unique_ids(s),
        !seq_has_id(s, k.uuid),
    ensures
        unique_ids(s.push(k)),
        s.push(k).len() == s.len() + 1,
        seq_has_id(s.push(k), k.uuid),
{
    let t = s.push(k);
    assert(t[s.len() as int].uuid == k.uuid);
    assert forall|p: int, q: int| 0 <= p < q < t.len() implies (#[trigger] t[p]).uuid != (
    #[trigger] t[q]).uuid by {
        if q < s.len() {
            assert(t[p] == s[p] && t[q] == s[q]);
        } else {
            assert(t[q] == k);
            assert(t[p] == s[p]);
        }
    }
}

/// Under pairwise-distinct identifiers a stored record is determined by its
/// identifier: any two stored records sharing one are the same record. This
/// is why a keep read back by its identifier is exactly the record returned
/// at claim time.
pub proof fn lemma_keep_determined(s: Seq<Keep>, a: Keep, b: Keep)
    requires
        unique_ids(s),
        s.contains(a),
        s.contains(b),
        a.uuid == b.uuid,
    ensures
        a == b,
{
    let i = choose|i: int| 0 <= i < s.len() && s[i] == a;
    let j = choose|j: int| 0 <= j < s.len() && s[j] == b;
    if i != j {
        assert(s[i].uuid != s[j].uuid);
    }
}

/// Folding a batch of claims of `contract` under the identifiers `ids`, in
/// order, over the records `s`.
pub open spec fn claim_all(s: Seq<Keep>, contract: Contract, ids: Seq<u128>) -> Seq<Keep>
    decreases ids.len(),
{
    if ids.len() == 0 {
        s
    } else {
        claim_all(s.push(Keep { uuid: ids[0], contract }), contract, ids.drop_first())
    }
}

/// A batch of claims under pairwise-distinct fresh identifiers — the shape of
/// any number of claims racing on the same contract, serialized by the
/// registry's single writer lock — yields one keep per claim: the registry
/// grows by exactly the batch, every fresh identifier is stored, and
/// identifiers stay pairwise distinct.
pub proof fn lemma_claims_all_distinct(s: Seq<Keep>, contract: Contract, ids: Seq<u128>)
    requires
        unique_ids(s),
        forall|i: int| 0 <= i < ids.len() ==> !seq_has_id(s, #[trigger] ids[i]),
        forall|i: int, j: int| 0 <= i < j < ids.len() ==> ids[i] != ids[j],
    ensures
        unique_ids(claim_all(s, contract, ids)),
        claim_all(s, contract, ids).len() == s.len() + ids.len(),
        forall|i: int|
            0 <= i < ids.len() ==> seq_has_id(claim_all(s, contract, ids), #[trigger] ids[i]),
    decreases ids.len(),
{
    if ids.len() > 0 {
        let k = Keep { uuid: ids[0], contract };
        let s1 = s.push(k);
        lemma_push_fresh_unique(s, k);
        let rest = ids.drop_first();
        assert forall|i: int| 0 <= i < rest.len() implies !seq_has_id(s1, #[trigger] rest[i]) by {
            assert(rest[i] == ids[i + 1]);
            assert(ids[i + 1] != ids[0]);
            assert forall|p: int| 0 <= p < s1.len() implies (#[trigger] s1[p]).uuid != rest[i] by {
                if p < s.len() {
                    assert(s1[p] == s[p]);
                    assert(!seq_has_id(s, ids[i + 1]));
                } else {
                    assert(s1[p] == k);
                }
            }
        }
        lemma_claims_all_distinct(s1, contract, rest);
        let t = claim_all(s1, contract, rest);
        assert(claim_all(s, contract, ids) == t);
        assert forall|i: int| 0 <= i < ids.len() implies seq_has_id(t, #[trigger] ids[i]) by {
            if i == 0 {
                lemma_claim_all_grows(s1, contract, rest, ids[0]);
                assert(seq_has_id(s1, ids[0]));
            } else {
                assert(rest[i - 1] == ids[i]);
            }
        }
    }
}

/// A batch of claims removes nothing: an identifier stored before the batch
/// is still stored after it.
pub proof fn lemma_claim_all_grows(s: Seq<Keep>, contract: Contract, ids: Seq<u128>, id: u128)
    requires
        seq_has_id(s, id),
    ensures
        seq_has_id(claim_all(s, contract, ids), id),
    decreases ids.len(),
{
    if ids.len() > 0 {
        let s1 = s.push(Keep { uuid: ids[0], contract });
        let i = choose|i: int| 0 <= i < s.len() && (#[trigger] s[i]).uuid == id;
        assert(s1[i].uuid == id);
        lemma_claim_all_grows(s1, contract, ids.drop_first(), id);
    }
}

} // verus!
