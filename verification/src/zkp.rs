use crate::codec::push_bytes;
use crate::error::EchoIDError;
use crate::merkle::{bytes32_eq, sha256_of};
use vstd::prelude::*;

verus! {

/// An ownership proof in structured form: a prover-chosen commitment and the
/// response to the challenge derived from it.  Carries no mutable state.
#[derive(Clone, Copy, Debug)]
pub struct SerializableProof {
    pub commitment: [u8; 32],
    pub response: [u8; 32],
}

/// Length of the wire form of a proof: commitment then response.
pub const PROOF_LEN: usize = 64;

/// The challenge a proof must answer: the digest of the commitment, the
/// public key it is presented for, and the binding context of this
/// verification request.  Binding the context prevents replaying a captured
/// proof against another alias.
pub open spec fn spec_challenge(commitment: Seq<u8>, public_key: Seq<u8>, context: Seq<u8>) -> Seq<
    u8,
> {
    sha256_of(commitment + public_key + context)
}

/// Whether `response` answers the challenge for `commitment` bound to
/// `public_key` and `context`.
pub open spec fn proof_accepted(
    commitment: Seq<u8>,
    response: Seq<u8>,
    public_key: Seq<u8>,
    context: Seq<u8>,
) -> bool {
    response == spec_challenge(commitment, public_key, context)
}

/// Deserializes a proof from its 64-byte wire form.  Any other length is
/// malformed input, rejected as an error before verification is attempted.
pub fn parse_proof(bytes: &[u8]) -> (r: Result<SerializableProof, EchoIDError>)
    ensures
        r is Ok <==> bytes@.len() == PROOF_LEN,
        r is Ok ==> r->Ok_0.commitment@ == bytes@.subrange(0, 32) && r->Ok_0.response@
            == bytes@.subrange(32, 64),
        r is Err ==> r->Err_0 == EchoIDError::InvalidInstruction,
{
    if bytes.len() != PROOF_LEN {
        return Err(EchoIDError::InvalidInstruction);
    }
    let mut commitment = [0u8; 32];
    let mut response = [0u8; 32];
    let mut i: usize = 0;
    while i < 32
        invariant
            i <= 32,
            bytes@.len() == 64,
            forall|k: int| 0 <= k < i ==> commitment@[k] == bytes@[k],
        decreases 32 - i,
    {
        commitment[i] = bytes[i];
        i = i + 1;
    }
    let mut k: usize = 0;
    while k < 32
        invariant
            k <= 32,
            bytes@.len() == 64,
            forall|j: int| 0 <= j < k ==> response@[j] == bytes@[32 + j],
        decreases 32 - k,
    {
        response[k] = bytes[32 + k];
        k = k + 1;
    }
    proof {
        assert(commitment@ =~= bytes@.subrange(0, 32));
        assert(response@ =~= bytes@.subrange(32, 64));
    }
    Ok(SerializableProof { commitment, response })
}

/// Serializes a proof into its 64-byte wire form.
pub fn serialize_proof(proof: &SerializableProof) -> (r: Vec<u8>)
    ensures
        r@ == proof.commitment@ + proof.response@,
        r@.len() == PROOF_LEN,
{
    let mut out: Vec<u8> = Vec::new();
    push_bytes(&mut out, proof.commitment.as_slice());
    push_bytes(&mut out, proof.response.as_slice());
    out
}

/// Parsing inverts serialization: the wire form of a proof parses back to
/// the same commitment and response.
pub proof fn lemma_proof_round_trip(proof: SerializableProof)
    ensures
        (proof.commitment@ + proof.response@).len() == PROOF_LEN,
        (proof.commitment@ + proof.response@).subrange(0, 32) == proof.commitment@,
        (proof.commitment@ + proof.response@).subrange(32, 64) == proof.response@,
{
    assert((proof.commitment@ + proof.response@).subrange(0, 32) =~= proof.commitment@);
    assert((proof.commitment@ + proof.response@).subrange(32, 64) =~= proof.response@);
}

/// Computes the challenge digest a proof must answer.
pub fn compute_challenge(commitment: &[u8; 32], public_key: &[u8; 32], context: &[u8]) -> (r: [u8;
    32])
    ensures
        r@ == spec_challenge(commitment@, public_key@, context@),
{
    let mut buf: Vec<u8> = Vec::new();
    push_bytes(&mut buf, commitment.as_slice());
    push_bytes(&mut buf, public_key.as_slice());
    push_bytes(&mut buf, context);
    proof {
        assert(buf@ =~= commitment@ + public_key@ + context@);
    }
    crate::merkle::sha256_bytes(buf.as_slice())
}

/// Checks a structured proof against a public key and binding context.
/// True exactly when the response answers the context-bound challenge;
/// a well-formed but wrong proof yields false, never an error.
pub fn verify_proof(proof: &SerializableProof, public_key: &[u8; 32], context: &[u8]) -> (r: bool)
    ensures
        r == proof_accepted(proof.commitment@, proof.response@, public_key@, context@),
{
    let expected = compute_challenge(&proof.commitment, public_key, context);
    bytes32_eq(&expected, &proof.response)
}

/// Builds the proof that answers the challenge for `public_key` bound to
/// `context`, from a prover-chosen commitment.
pub fn build_proof(commitment: [u8; 32], public_key: &[u8; 32], context: &[u8]) -> (proof:
    SerializableProof)
    ensures
        proof.commitment@ == commitment@,
        proof_accepted(proof.commitment@, proof.response@, public_key@, context@),
{
    let response = compute_challenge(&commitment, public_key, context);
    SerializableProof { commitment, response }
}

} // verus!
