//! The response wire format: every successful body is a compact
//! self-describing binary encoding (CBOR). The shapes this service emits are
//! fixed — a contract record, a keep record, and definite-length lists of
//! each — and are specified here byte for byte: a record is a map of two
//! text-keyed fields, an identifier is a 16-byte big-endian byte string, a
//! backend is its lower-case text label, and every item header carries its
//! argument in the shortest form.

use vstd::prelude::*;

use crate::backend::Backend;
use crate::contract::Contract;
use crate::registry::Keep;

verus! {

/// A CBOR item header: major type `major` with argument `n`, encoded in the
/// shortest of the five argument forms.
pub open spec fn spec_arg(major: u8, n: u64) -> Seq<u8> {
    if n < 24 {
        seq![((major as int) * 0x20 + n) as u8]
    } else if n <= 0xff {
        seq![((major as int) * 0x20 + 24) as u8, n as u8]
    } else if n <= 0xffff {
        seq![((major as int) * 0x20 + 25) as u8, (n >> 8) as u8, n as u8]
    } else if n <= 0xffff_ffff {
        seq![
            ((major as int) * 0x20 + 26) as u8,
            (n >> 24) as u8,
            (n >> 16) as u8,
            (n >> 8) as u8,
            n as u8,
        ]
    } else {
        seq![
            ((major as int) * 0x20 + 27) as u8,
            (n >> 56) as u8,
            (n >> 48) as u8,
            (n >> 40) as u8,
            (n >> 32) as u8,
            (n >> 24) as u8,
            (n >> 16) as u8,
            (n >> 8) as u8,
            n as u8,
        ]
    }
}

/// The 16 bytes of a 128-bit identifier, most significant first.
pub open spec fn u128_be(id: u128) -> Seq<u8> {
    seq![
        (id >> 120) as u8,
        (id >> 112) as u8,
        (id >> 104) as u8,
        (id >> 96) as u8,
        (id >> 88) as u8,
        (id >> 80) as u8,
        (id >> 72) as u8,
        (id >> 64) as u8,
        (id >> 56) as u8,
        (id >> 48) as u8,
        (id >> 40) as u8,
        (id >> 32) as u8,
        (id >> 24) as u8,
        (id >> 16) as u8,
        (id >> 8) as u8,
        id as u8,
    ]
}

/// An identifier on the wire: a byte string of 16 bytes.
pub open spec fn cbor_uuid(id: u128) -> Seq<u8> {
    seq![0x50u8] + u128_be(id)
}

/// The map key `"uuid"`: text of length 4.
pub open spec fn key_uuid() -> Seq<u8> {
    seq![0x64u8, 0x75u8, 0x75u8, 0x69u8, 0x64u8]
}

/// The map key `"backend"`: text of length 7.
pub open spec fn key_backend() -> Seq<u8> {
    seq![0x67u8, 0x62u8, 0x61u8, 0x63u8, 0x6bu8, 0x65u8, 0x6eu8, 0x64u8]
}

/// The map key `"contract"`: text of length 8.
pub open spec fn key_contract() -> Seq<u8> {
    seq![0x68u8, 0x63u8, 0x6fu8, 0x6eu8, 0x74u8, 0x72u8, 0x61u8, 0x63u8, 0x74u8]
}

/// A backend on the wire: its three-letter label as text.
pub open spec fn cbor_backend(b: Backend) -> Seq<u8> {
    match b {
        Backend::Nil => seq![0x63u8, 0x6eu8, 0x69u8, 0x6cu8],
        Backend::Sev => seq![0x63u8, 0x73u8, 0x65u8, 0x76u8],
        Backend::Sgx => seq![0x63u8, 0x73u8, 0x67u8, 0x78u8],
        Backend::Kvm => seq![0x63u8, 0x6bu8, 0x76u8, 0x6du8],
    }
}

/// A contract on the wire: a map of two entries, `"uuid"` then `"backend"`,
/// in field order.
pub open spec fn cbor_contract(c: Contract) -> Seq<u8> {
    seq![0xa2u8] + key_uuid() + cbor_uuid(c.uuid) + key_backend() + cbor_backend(c.backend)
}

/// A keep on the wire: a map of two entries, `"uuid"` then `"contract"`, the
/// latter a full contract record.
pub open spec fn cbor_keep(k: Keep) -> Seq<u8> {
    seq![0xa2u8] + key_uuid() + cbor_uuid(k.uuid) + key_contract() + cbor_contract(k.contract)
}

/// The concatenated elements of a contract list body.
pub open spec fn cbor_contract_items(cs: Seq<Contract>) -> Seq<u8>
    decreases cs.len(),
{
    if cs.len() == 0 {
        Seq::empty()
    } else {
        cbor_contract(cs[0]) + cbor_contract_items(cs.drop_first())
    }
}

/// A contract list on the wire: a definite-length array of contract records.
pub open spec fn cbor_contract_list(cs: Seq<Contract>) -> Seq<u8> {
    spec_arg(4, cs.len() as u64) + cbor_contract_items(cs)
}

/// The concatenated elements of a keep list body.
pub open spec fn cbor_keep_items(ks: Seq<Keep>) -> Seq<u8>
    decreases ks.len(),
{
    if ks.len() == 0 {
        Seq::empty()
    } else {
        cbor_keep(ks[0]) + cbor_keep_items(ks.drop_first())
    }
}

/// A keep list on the wire: a definite-length array of keep records.
pub open spec fn cbor_keep_list(ks: Seq<Keep>) -> Seq<u8> {
    spec_arg(4, ks.len() as u64) + cbor_keep_items(ks)
}

proof fn lemma_contract_items_snoc(s: Seq<Contract>, x: Contract)
    ensures
        cbor_contract_items(s.push(x)) == cbor_contract_items(s) + cbor_contract(x),
    decreases s.len(),
{
    let t = s.push(x);
    assert(t.len() == s.len() + 1);
    assert(t[0] == if s.len() == 0 { x } else { s[0] });
    assert(cbor_contract_items(t) == cbor_contract(t[0]) + cbor_contract_items(t.drop_first()));
    if s.len() == 0 {
        assert(t.drop_first() =~= Seq::<Contract>::empty());
        assert(cbor_contract_items(t.drop_first()) == Seq::<u8>::empty());
        assert(cbor_contract_items(s) == Seq::<u8>::empty());
        assert(cbor_contract(x) + Seq::<u8>::empty() =~= Seq::<u8>::empty() + cbor_contract(x));
    } else {
        assert(t.drop_first() =~= s.drop_first().push(x));
        lemma_contract_items_snoc(s.drop_first(), x);
        assert(cbor_contract_items(s) == cbor_contract(s[0]) + cbor_contract_items(s.drop_first()));
        assert(cbor_contract(s[0]) + (cbor_contract_items(s.drop_first()) + cbor_contract(x)) =~= (
        cbor_contract(s[0]) + cbor_contract_items(s.drop_first())) + cbor_contract(x));
    }
}

proof fn lemma_keep_items_snoc(s: Seq<Keep>, x: Keep)
    ensures
        cbor_keep_items(s.push(x)) == cbor_keep_items(s) + cbor_keep(x),
    decreases s.len(),
{
    let t = s.push(x);
    assert(t.len() == s.len() + 1);
    assert(t[0] == if s.len() == 0 { x } else { s[0] });
    assert(cbor_keep_items(t) == cbor_keep(t[0]) + cbor_keep_items(t.drop_first()));
    if s.len() == 0 {
        assert(t.drop_first() =~= Seq::<Keep>::empty());
        assert(cbor_keep_items(t.drop_first()) == Seq::<u8>::empty());
        assert(cbor_keep_items(s) == Seq::<u8>::empty());
        assert(cbor_keep(x) + Seq::<u8>::empty() =~= Seq::<u8>::empty() + cbor_keep(x));
    } else {
        assert(t.drop_first() =~= s.drop_first().push(x));
        lemma_keep_items_snoc(s.drop_first(), x);
        assert(cbor_keep_items(s) == cbor_keep(s[0]) + cbor_keep_items(s.drop_first()));
        assert(cbor_keep(s[0]) + (cbor_keep_items(s.drop_first()) + cbor_keep(x)) =~= (cbor_keep(
        s[0]) + cbor_keep_items(s.drop_first())) + cbor_keep(x));
    }
}

/// Appends the shortest header for major type `major` with argument `n`.
fn emit_arg(out: &mut Vec<u8>, major: u8, n: u64)
    requires
        major < 8,
    ensures
        final(out)@ == old(out)@ + spec_arg(major, n),
{
    if n < 24 {
        out.push(major * 0x20 + n as u8);
        proof {
            assert(final(out)@ =~= old(out)@ + spec_arg(major, n));
        }
    } else if n <= 0xff {
        out.push(major * 0x20 + 24);
        out.push(n as u8);
        proof {
            assert(final(out)@ =~= old(out)@ + spec_arg(major, n));
        }
    } else if n <= 0xffff {
        out.push(major * 0x20 + 25);
        out.push((n >> 8) as u8);
        out.push(n as u8);
        proof {
            assert(final(out)@ =~= old(out)@ + spec_arg(major, n));
        }
    } else if n <= 0xffff_ffff {
        out.push(major * 0x20 + 26);
        out.push((n >> 24) as u8);
        out.push((n >> 16) as u8);
        out.push((n >> 8) as u8);
        out.push(n as u8);
        proof {
            assert(final(out)@ =~= old(out)@ + spec_arg(major, n));
        }
    } else {
        out.push(major * 0x20 + 27);
        out.push((n >> 56) as u8);
        out.push((n >> 48) as u8);
        out.push((n >> 40) as u8);
        out.push((n >> 32) as u8);
        out.push((n >> 24) as u8);
        out.push((n >> 16) as u8);
        out.push((n >> 8) as u8);
        out.push(n as u8);
        proof {
            assert(final(out)@ =~= old(out)@ + spec_arg(major, n));
        }
    }
}

/// Appends an identifier as a 16-byte byte string.
fn emit_uuid(out: &mut Vec<u8>, id: u128)
    ensures
        final(out)@ == old(out)@ + cbor_uuid(id),
{
    out.push(0x50);
    out.push((id >> 120) as u8);
    out.push((id >> 112) as u8);
    out.push((id >> 104) as u8);
    out.push((id >> 96) as u8);
    out.push((id >> 88) as u8);
    out.push((id >> 80) as u8);
    out.push((id >> 72) as u8);
    out.push((id >> 64) as u8);
    out.push((id >> 56) as u8);
    out.push((id >> 48) as u8);
    out.push((id >> 40) as u8);
    out.push((id >> 32) as u8);
    out.push((id >> 24) as u8);
    out.push((id >> 16) as u8);
    out.push((id >> 8) as u8);
    out.push(id as u8);
    proof {
        assert(final(out)@ =~= old(out)@ + cbor_uuid(id));
    }
}

/// Appends a backend's text label.
fn emit_backend(out: &mut Vec<u8>, b: Backend)
    ensures
        final(out)@ == old(out)@ + cbor_backend(b),
{
    out.push(0x63);
    match b {
        Backend::Nil => {
            out.push(0x6e);
            out.push(0x69);
            out.push(0x6c);
        },
        Backend::Sev => {
            out.push(0x73);
            out.push(0x65);
            out.push(0x76);
        },
        Backend::Sgx => {
            out.push(0x73);
            out.push(0x67);
            out.push(0x78);
        },
        Backend::Kvm => {
            out.push(0x6b);
            out.push(0x76);
            out.push(0x6d);
        },
    }
    proof {
        assert(final(out)@ =~= old(out)@ + cbor_backend(b));
    }
}

/// Appends a full contract record.
fn emit_contract(out: &mut Vec<u8>, c: &Contract)
    ensures
        final(out)@ == old(out)@ + cbor_contract(*c),
{
    out.push(0xa2);
    out.push(0x64);
    out.push(0x75);
    out.push(0x75);
    out.push(0x69);
    out.push(0x64);
    emit_uuid(out, c.uuid);
    out.push(0x67);
    out.push(0x62);
    out.push(0x61);
    out.push(0x63);
    out.push(0x6b);
    out.push(0x65);
    out.push(0x6e);
    out.push(0x64);
    emit_backend(out, c.backend);
    proof {
        assert(final(out)@ =~= old(out)@ + cbor_contract(*c));
    }
}

/// Appends a full keep record.
fn emit_keep(out: &mut Vec<u8>, k: &Keep)
    ensures
        final(out)@ == old(out)@ + cbor_keep(*k),
{
    out.push(0xa2);
    out.push(0x64);
    out.push(0x75);
    out.push(0x75);
    out.push(0x69);
    out.push(0x64);
    emit_uuid(out, k.uuid);
    out.push(0x68);
    out.push(0x63);
    out.push(0x6f);
    out.push(0x6e);
    out.push(0x74);
    out.push(0x72);
    out.push(0x61);
    out.push(0x63);
    out.push(0x74);
    emit_contract(out, &k.contract);
    proof {
        assert(final(out)@ =~= old(out)@ + cbor_keep(*k));
    }
}

/// Encodes one contract record.
pub fn encode_contract(c: &Contract) -> (r: Vec<u8>)
    ensures
        r@ == cbor_contract(*c),
{
    let mut out: Vec<u8> = Vec::new();
    emit_contract(&mut out, c);
    proof {
        assert(out@ =~= cbor_contract(*c));
    }
    out
}

/// Encodes one keep record.
pub fn encode_keep(k: &Keep) -> (r: Vec<u8>)
    ensures
        r@ == cbor_keep(*k),
{
    let mut out: Vec<u8> = Vec::new();
    emit_keep(&mut out, k);
    proof {
        assert(out@ =~= cbor_keep(*k));
    }
    out
}

/// Encodes a list of contract records as a definite-length array.
pub fn encode_contract_list(cs: &Vec<Contract>) -> (r: Vec<u8>)
    ensures
        r@ == cbor_contract_list(cs@),
{
    let mut out: Vec<u8> = Vec::new();
    emit_arg(&mut out, 4, cs.len() as u64);
    proof {
        assert(out@ =~= spec_arg(4, cs@.len() as u64));
        assert(cs@.take(0) =~= Seq::<Contract>::empty());
    }
    let mut i: usize = 0;
    while i < cs.len()
        invariant
            i <= cs@.len(),
            out@ == spec_arg(4, cs@.len() as u64) + cbor_contract_items(cs@.take(i as int)),
        decreases cs@.len() - i,
    {
        emit_contract(&mut out, &cs[i]);
        proof {
            assert(cs@.take(i + 1) =~= cs@.take(i as int).push(cs@[i as int]));
            lemma_contract_items_snoc(cs@.take(i as int), cs@[i as int]);
            assert(out@ =~= spec_arg(4, cs@.len() as u64) + cbor_contract_items(cs@.take(i + 1)));
        }
        i += 1;
    }
    proof {
        assert(cs@.take(cs@.len() as int) =~= cs@);
    }
    out
}

/// Encodes a list of keep records as a definite-length array.
pub fn encode_keep_list(ks: &Vec<Keep>) -> (r: Vec<u8>)
    ensures
        r@ == cbor_keep_list(ks@),
{
    let mut out: Vec<u8> = Vec::new();
    emit_arg(&mut out, 4, ks.len() as u64);
    proof {
        assert(out@ =~= spec_arg(4, ks@.len() as u64));
        assert(ks@.take(0) =~= Seq::<Keep>::empty());
    }
    let mut i: usize = 0;
    while i < ks.len()
        invariant
            i <= ks@.len(),
            out@ == spec_arg(4, ks@.len() as u64) + cbor_keep_items(ks@.take(i as int)),
        decreases ks@.len() - i,
    {
        emit_keep(&mut out, &ks[i]);
        proof {
            assert(ks@.take(i + 1) =~= ks@.take(i as int).push(ks@[i as int]));
            lemma_keep_items_snoc(ks@.take(i as int), ks@[i as int]);
            assert(out@ =~= spec_arg(4, ks@.len() as u64) + cbor_keep_items(ks@.take(i + 1)));
        }
        i += 1;
    }
    proof {
        assert(ks@.take(ks@.len() as int) =~= ks@);
    }
    out
}

} // verus!
