use crate::codec::{encode_chain_mapping, push_bytes, spec_encode, ChainMapping, ChainMappingView};
use crate::error::EchoIDError;
use vstd::prelude::*;

verus! {

/// The 32-byte digest the accumulator is built from, as a function of the
/// hashed bytes alone.
pub uninterp spec fn sha256_of(bytes: Seq<u8>) -> Seq<u8>;

/// Relies on sha2's `Sha256::digest`: the SHA-256 digest of the input, a
/// 32-byte value that depends on the input bytes alone.
#[verifier::external_body]
pub(crate) fn sha256_bytes(bytes: &[u8]) -> (r: [u8; 32])
    ensures
        r@ == sha256_of(bytes@),
{
    <sha2::Sha256 as sha2::Digest>::digest(bytes).into()
}

/// Leaf digest of a mapping: the digest of its canonical encoding.
pub open spec fn leaf_hash_of(m: ChainMappingView) -> Seq<u8> {
    sha256_of(spec_encode(m))
}

/// Interior-node digest: the digest of the two children concatenated.
pub open spec fn node_hash_of(left: Seq<u8>, right: Seq<u8>) -> Seq<u8> {
    sha256_of(left + right)
}

/// One folding step of the tree: nodes are paired left to right; an odd
/// node at the end is hashed with a duplicate of itself.  This padding rule
/// is applied uniformly at every level, so it also determines which witness
/// lists reproduce a committed root.
pub open spec fn level_up(nodes: Seq<Seq<u8>>) -> Seq<Seq<u8>> {
    Seq::new(
        (nodes.len() + 1) / 2,
        |i: int|
            if 2 * i + 1 < nodes.len() {
                node_hash_of(nodes[2 * i], nodes[2 * i + 1])
            } else {
                node_hash_of(nodes[2 * i], nodes[2 * i])
            },
    )
}

/// Root of the binary Merkle tree over `leaves`, folded bottom-up level by
/// level.  A single leaf is its own root (the degenerate one-node tree); the
/// root over no leaves is defined as the all-zero digest, a value no
/// populated accumulator commits to.
pub open spec fn merkle_root_of(leaves: Seq<Seq<u8>>) -> Seq<u8>
    decreases leaves.len(),
{
    if leaves.len() == 0 {
        Seq::new(32, |i: int| 0u8)
    } else if leaves.len() == 1 {
        leaves[0]
    } else {
        merkle_root_of(level_up(leaves))
    }
}

/// The digests in a sequence of 32-byte values, as byte sequences.
pub open spec fn digests_of(s: Seq<[u8; 32]>) -> Seq<Seq<u8>> {
    s.map_values(|a: [u8; 32]| a@)
}

/// Hashes a mapping into its leaf digest.
pub fn hash_chain_mapping(m: &ChainMapping) -> (r: [u8; 32])
    ensures
        r@ == leaf_hash_of(m@),
{
    let encoded = encode_chain_mapping(m);
    sha256_bytes(encoded.as_slice())
}

/// Digest of an interior node from its two children.
fn hash_pair(left: &[u8; 32], right: &[u8; 32]) -> (r: [u8; 32])
    ensures
        r@ == node_hash_of(left@, right@),
{
    let mut buf: Vec<u8> = Vec::new();
    push_bytes(&mut buf, left.as_slice());
    push_bytes(&mut buf, right.as_slice());
    proof {
        assert(buf@ =~= left@ + right@);
    }
    sha256_bytes(buf.as_slice())
}

/// Byte-for-byte comparison of two 32-byte values.
pub fn bytes32_eq(a: &[u8; 32], b: &[u8; 32]) -> (r: bool)
    ensures
        r == (a@ == b@),
{
    let mut i: usize = 0;
    while i < 32
        invariant
            i <= 32,
            forall|j: int| 0 <= j < i ==> a@[j] == b@[j],
        decreases 32 - i,
    {
        if a[i] != b[i] {
            return false;
        }
        i = i + 1;
    }
    proof {
        assert(a@ =~= b@);
    }
    true
}

/// Copies a vector of digests.
fn copy_digests(src: &Vec<[u8; 32]>) -> (r: Vec<[u8; 32]>)
    ensures
        r@ == src@,
{
    let mut out: Vec<[u8; 32]> = Vec::new();
    let mut i: usize = 0;
    while i < src.len()
        invariant
            i <= src@.len(),
            out@ == src@.take(i as int),
        decreases src@.len() - i,
    {
        out.push(src[i]);
        proof {
            assert(src@.take(i as int) + seq![src@[i as int]] =~= src@.take(i + 1));
        }
        i = i + 1;
    }
    proof {
        assert(src@.take(src@.len() as int) =~= src@);
    }
    out
}

/// Computes the Merkle root of an ordered sequence of leaf digests by
/// folding the tree bottom-up.
pub fn compute_merkle_root(leaves: &Vec<[u8; 32]>) -> (r: [u8; 32])
    ensures
        r@ == merkle_root_of(digests_of(leaves@)),
{
    if leaves.len() == 0 {
        let r = [0u8; 32];
        proof {
            assert(r@ =~= Seq::new(32, |i: int| 0u8));
        }
        return r;
    }
    let mut current = copy_digests(leaves);
    while current.len() > 1
        invariant
            current@.len() >= 1,
            merkle_root_of(digests_of(current@)) == merkle_root_of(digests_of(leaves@)),
        decreases current@.len(),
    {
        let ghost cur_digests = digests_of(current@);
        let mut next: Vec<[u8; 32]> = Vec::new();
        let mut j: usize = 0;
        while j < current.len() - 1
            invariant
                current@.len() >= 2,
                j % 2 == 0,
                j <= current@.len(),
                cur_digests == digests_of(current@),
                digests_of(next@) == level_up(cur_digests).take(j as int / 2),
            decreases current@.len() - j,
        {
            let ghost jj = j as int;
            let ghost prev = next@;
            let h = hash_pair(&current[j], &current[j + 1]);
            next.push(h);
            j = j + 2;
            proof {
                let lu = level_up(cur_digests);
                assert(2 * (jj / 2) == jj);
                assert(jj / 2 + 1 <= lu.len());
                assert(digests_of(prev).len() == prev.len());
                assert(lu.take(jj / 2).len() == jj / 2);
                assert(prev.len() == jj / 2);
                assert forall|k: int| 0 <= k < jj / 2 + 1 implies digests_of(next@)[k] == lu.take(
                    jj / 2 + 1,
                )[k] by {
                    if k < jj / 2 {
                        assert(digests_of(prev)[k] == lu.take(jj / 2)[k]);
                        assert(next@[k] == prev[k]);
                    } else {
                        assert(next@[k] == h);
                        assert(lu[jj / 2] == node_hash_of(cur_digests[jj], cur_digests[jj + 1]));
                    }
                }
                assert(digests_of(next@) =~= lu.take(jj / 2 + 1));
                assert(jj / 2 + 1 == (jj + 2) / 2);
            }
        }
        if j < current.len() {
            let ghost jj = j as int;
            let ghost prev = next@;
            let h = hash_pair(&current[j], &current[j]);
            next.push(h);
            proof {
                let lu = level_up(cur_digests);
                assert(2 * (jj / 2) == jj);
                assert(jj == cur_digests.len() - 1);
                assert(digests_of(prev).len() == prev.len());
                assert(lu.take(jj / 2).len() == jj / 2);
                assert(prev.len() == jj / 2);
                assert(lu.len() == jj / 2 + 1);
                assert forall|k: int| 0 <= k < lu.len() implies digests_of(next@)[k] == lu[k] by {
                    if k < jj / 2 {
                        assert(digests_of(prev)[k] == lu.take(jj / 2)[k]);
                        assert(next@[k] == prev[k]);
                    } else {
                        assert(next@[k] == h);
                        assert(!(2 * (jj / 2) + 1 < cur_digests.len()));
                        assert(lu[jj / 2] == node_hash_of(cur_digests[jj], cur_digests[jj]));
                    }
                }
                assert(digests_of(next@) =~= lu);
            }
        } else {
            proof {
                let lu = level_up(cur_digests);
                assert(j == cur_digests.len() && j % 2 == 0);
                assert(lu.len() == j as int / 2);
                assert(digests_of(next@) == lu.take(j as int / 2));
                assert(lu.take(j as int / 2) =~= lu);
            }
        }
        proof {
            assert(merkle_root_of(digests_of(next@)) == merkle_root_of(cur_digests));
        }
        current = next;
    }
    let r = current[0];
    proof {
        assert(digests_of(current@).len() == 1);
        assert(merkle_root_of(digests_of(current@)) == digests_of(current@)[0]);
    }
    r
}

/// Extends a committed root with one new leaf.  The record stores only the
/// root and the count, so the caller resupplies the full ordered leaf list;
/// it must recompute to `prior_root`, else nothing is derived.
pub fn root_with_appended_leaf(leaves: &Vec<[u8; 32]>, prior_root: &[u8; 32], new_leaf: &[u8; 32])
    -> (r: Result<[u8; 32], EchoIDError>)
    ensures
        r is Ok <==> merkle_root_of(digests_of(leaves@)) == prior_root@,
        r is Ok ==> r->Ok_0@ == merkle_root_of(digests_of(leaves@).push(new_leaf@)),
        r is Err ==> r->Err_0 == EchoIDError::InvalidDerivedAccount,
{
    let computed = compute_merkle_root(leaves);
    if !bytes32_eq(&computed, prior_root) {
        return Err(EchoIDError::InvalidDerivedAccount);
    }
    let mut extended = copy_digests(leaves);
    extended.push(*new_leaf);
    proof {
        assert(digests_of(extended@) =~= digests_of(leaves@).push(new_leaf@));
    }
    Ok(compute_merkle_root(&extended))
}

/// A single-leaf tree's root is the leaf itself.
pub proof fn lemma_single_leaf_root(leaf: Seq<u8>)
    ensures
        merkle_root_of(seq![leaf]) == leaf,
{
    assert(seq![leaf].len() == 1);
}

} // verus!
