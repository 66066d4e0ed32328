use vstd::bytes::lemma_auto_spec_u64_to_from_le_bytes;
use vstd::bytes::spec_u64_to_le_bytes;
use vstd::bytes::u64_to_le_bytes;
use vstd::prelude::*;

verus! {

/// A single cross-chain address mapping: an alias's presence on another
/// ledger.  Immutable once hashed into a leaf.
#[derive(Clone, Debug)]
pub struct ChainMapping {
    pub chain_id: u64,
    pub address: Vec<u8>,
    pub metadata: Vec<u8>,
}

/// Mathematical model of a `ChainMapping`.
#[verifier::ext_equal]
pub struct ChainMappingView {
    pub chain_id: u64,
    pub address: Seq<u8>,
    pub metadata: Seq<u8>,
}

impl View for ChainMapping {
    type V = ChainMappingView;

    open spec fn view(&self) -> ChainMappingView {
        ChainMappingView {
            chain_id: self.chain_id,
            address: self.address@,
            metadata: self.metadata@,
        }
    }
}

/// Canonical encoding of a mapping, the pre-image of its leaf digest:
/// the chain id in little-endian form, then the length-prefixed address,
/// then the length-prefixed metadata.  Deterministic by construction and
/// injective (`lemma_encode_injective`).
pub open spec fn spec_encode(m: ChainMappingView) -> Seq<u8> {
    spec_u64_to_le_bytes(m.chain_id) + (spec_u64_to_le_bytes(m.address.len() as u64) + (m.address
        + (spec_u64_to_le_bytes(m.metadata.len() as u64) + m.metadata)))
}

/// Appends a byte slice to a buffer.
pub(crate) fn push_bytes(out: &mut Vec<u8>, bytes: &[u8])
    ensures
        final(out)@ == old(out)@ + bytes@,
{
    let ghost prefix = out@;
    let mut i: usize = 0;
    while i < bytes.len()
        invariant
            i <= bytes@.len(),
            out@ == prefix + bytes@.take(i as int),
        decreases bytes@.len() - i,
    {
        out.push(bytes[i]);
        i = i + 1;
        proof {
            assert(prefix + bytes@.take(i - 1) + seq![bytes@[i - 1]] =~= prefix + bytes@.take(
                i as int,
            ));
        }
    }
    proof {
        assert(prefix + bytes@.take(bytes@.len() as int) =~= prefix + bytes@);
    }
}

/// Computes the canonical byte encoding of a mapping.
pub fn encode_chain_mapping(m: &ChainMapping) -> (r: Vec<u8>)
    ensures
        r@ == spec_encode(m@),
{
    let mut out = u64_to_le_bytes(m.chain_id);
    let addr_len = u64_to_le_bytes(m.address.len() as u64);
    push_bytes(&mut out, addr_len.as_slice());
    push_bytes(&mut out, m.address.as_slice());
    let meta_len = u64_to_le_bytes(m.metadata.len() as u64);
    push_bytes(&mut out, meta_len.as_slice());
    push_bytes(&mut out, m.metadata.as_slice());
    proof {
        assert(out@ =~= spec_encode(m@));
    }
    out
}

/// Splitting a concatenation at a common prefix length recovers both parts.
proof fn lemma_append_parts(a1: Seq<u8>, b1: Seq<u8>, a2: Seq<u8>, b2: Seq<u8>)
    requires
        a1 + b1 == a2 + b2,
        a1.len() == a2.len(),
    ensures
        a1 == a2,
        b1 == b2,
{
    assert forall|i: int| 0 <= i < a1.len() implies a1[i] == a2[i] by {
        assert((a1 + b1)[i] == a1[i]);
        assert((a2 + b2)[i] == a2[i]);
    }
    assert(a1 =~= a2);
    assert((a1 + b1).len() == a1.len() + b1.len());
    assert((a2 + b2).len() == a2.len() + b2.len());
    assert(b1.len() == b2.len());
    assert forall|i: int| 0 <= i < b1.len() implies b1[i] == b2[i] by {
        assert((a1 + b1)[a1.len() + i] == b1[i]);
        assert((a2 + b2)[a2.len() + i] == b2[i]);
    }
    assert(b1 =~= b2);
}

/// The canonical encoding is injective: distinct mappings never share an
/// encoding, so no two distinct mappings ever share a leaf pre-image.
pub proof fn lemma_encode_injective(m1: ChainMappingView, m2: ChainMappingView)
    requires
        m1.address.len() <= u64::MAX,
        m1.metadata.len() <= u64::MAX,
        m2.address.len() <= u64::MAX,
        m2.metadata.len() <= u64::MAX,
        spec_encode(m1) == spec_encode(m2),
    ensures
        m1 == m2,
{
    lemma_auto_spec_u64_to_from_le_bytes();
    let c1 = spec_u64_to_le_bytes(m1.chain_id);
    let c2 = spec_u64_to_le_bytes(m2.chain_id);
    let al1 = spec_u64_to_le_bytes(m1.address.len() as u64);
    let al2 = spec_u64_to_le_bytes(m2.address.len() as u64);
    let ml1 = spec_u64_to_le_bytes(m1.metadata.len() as u64);
    let ml2 = spec_u64_to_le_bytes(m2.metadata.len() as u64);
    lemma_append_parts(
        c1,
        al1 + (m1.address + (ml1 + m1.metadata)),
        c2,
        al2 + (m2.address + (ml2 + m2.metadata)),
    );
    assert(m1.chain_id == m2.chain_id) by {
        assert(vstd::bytes::spec_u64_from_le_bytes(c1) == vstd::bytes::spec_u64_from_le_bytes(c2));
    }
    lemma_append_parts(al1, m1.address + (ml1 + m1.metadata), al2, m2.address + (ml2 + m2.metadata));
    assert(m1.address.len() == m2.address.len()) by {
        assert(vstd::bytes::spec_u64_from_le_bytes(al1) == vstd::bytes::spec_u64_from_le_bytes(
            al2,
        ));
    }
    lemma_append_parts(m1.address, ml1 + m1.metadata, m2.address, ml2 + m2.metadata);
    lemma_append_parts(ml1, m1.metadata, ml2, m2.metadata);
    assert(m1.metadata.len() == m2.metadata.len()) by {
        assert(vstd::bytes::spec_u64_from_le_bytes(ml1) == vstd::bytes::spec_u64_from_le_bytes(
            ml2,
        ));
    }
    assert(m1 =~= m2);
}

} // verus!
