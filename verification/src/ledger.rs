use crate::codec::ChainMapping;
use crate::error::EchoIDError;
use crate::merkle::{
    bytes32_eq, compute_merkle_root, digests_of, hash_chain_mapping, leaf_hash_of, merkle_root_of,
};
use crate::zkp::{parse_proof, proof_accepted, verify_proof, PROOF_LEN};
use vstd::prelude::*;
use vstd::string::StrSliceExecFns;
use vstd::utf8::encode_utf8;

verus! {

/// Most chain mappings a single alias may accumulate.
pub const MAX_CHAIN_MAPPINGS: u32 = 10;

/// Longest username accepted at registration.
pub const MAX_USERNAME_LEN: usize = 32;

/// Largest magnitude a single reputation change may have.
pub const MAX_REPUTATION_CHANGE: i64 = 100;

/// Baseline trust score assigned at registration.
pub const INITIAL_REPUTATION: i64 = 10;

/// The alias record: a human-readable identity bound to a public key, a
/// Merkle commitment over its chain mappings, and a reputation score.
/// Created once at registration and mutated only through the operations
/// below; the root and the count are always updated together.
pub struct AliasAccount {
    pub owner: [u8; 32],
    pub username: String,
    pub product_suffix: String,
    pub public_key: [u8; 32],
    pub chain_mappings_root: [u8; 32],
    pub chain_mapping_count: u32,
    pub reputation: i64,
    pub reputation_updated_at: i64,
}

/// Inputs a caller supplies to register an alias.
pub struct RegisterAliasParams {
    pub username: String,
    pub public_key: [u8; 32],
    pub initial_chain_mapping: ChainMapping,
}

/// Whether the username holds the separator that splits an alias into
/// username and suffix; such a name is rejected.
pub open spec fn has_at_sign(username: Seq<char>) -> bool {
    exists|i: int| 0 <= i < username.len() && username[i] == '@'
}

/// The leaf digests of a mapping list, in order.
pub open spec fn witness_leaves(mappings: Seq<ChainMapping>) -> Seq<Seq<u8>> {
    mappings.map_values(|m: ChainMapping| leaf_hash_of(m@))
}

/// Whether some mapping in the list already claims `chain_id`.
pub open spec fn has_chain_id(mappings: Seq<ChainMapping>, chain_id: u64) -> bool {
    exists|i: int| 0 <= i < mappings.len() && mappings[i].chain_id == chain_id
}

/// Whether policy admits applying `change` to `reputation`: the magnitude is
/// capped and the resulting score must stay a representable non-negative
/// value.
pub open spec fn valid_reputation_change(reputation: int, change: int) -> bool {
    &&& -MAX_REPUTATION_CHANGE <= change <= MAX_REPUTATION_CHANGE
    &&& 0 <= reputation + change <= i64::MAX
}

impl AliasAccount {
    /// Well-formedness: established at registration and preserved by every
    /// operation.
    pub open spec fn wf(self) -> bool {
        &&& !has_at_sign(self.username@)
        &&& self.username@.len() <= MAX_USERNAME_LEN
        &&& 1 <= self.chain_mapping_count <= MAX_CHAIN_MAPPINGS
        &&& self.reputation >= 0
    }

    /// The binding context of ownership proofs for this record: the alias
    /// identity `username@product_suffix` as UTF-8 bytes.
    pub open spec fn spec_ownership_context(self) -> Seq<u8> {
        encode_utf8(self.username@) + encode_utf8(seq!['@']) + encode_utf8(self.product_suffix@)
    }
}

/// Whether `username` holds an at sign.
fn username_has_at(username: &str) -> (r: bool)
    ensures
        r == has_at_sign(username@),
{
    let len = username.unicode_len();
    let mut i: usize = 0;
    while i < len
        invariant
            len == username@.len(),
            i <= len,
            forall|j: int| 0 <= j < i ==> username@[j] != '@',
        decreases len - i,
    {
        if username.get_char(i) == '@' {
            return true;
        }
        i = i + 1;
    }
    false
}

/// Creates the alias record.  The account layer has already authorized the
/// owner and checked that no record exists for `(username, product_suffix)`.
/// The single initial mapping's leaf digest becomes the stored root (the
/// degenerate one-leaf tree), the count starts at one, and the reputation at
/// its baseline.
pub fn register_alias(
    owner: [u8; 32],
    product_suffix: String,
    params: RegisterAliasParams,
    now: i64,
) -> (r: Result<AliasAccount, EchoIDError>)
    ensures
        r is Ok <==> !has_at_sign(params.username@) && params.username@.len()
            <= MAX_USERNAME_LEN as nat,
        has_at_sign(params.username@) ==> r == Err::<AliasAccount, EchoIDError>(
            EchoIDError::InvalidUsername,
        ),
        !has_at_sign(params.username@) && params.username@.len() > MAX_USERNAME_LEN as nat ==> r
            == Err::<AliasAccount, EchoIDError>(EchoIDError::AliasTooLong),
        r is Ok ==> {
            let acct = r->Ok_0;
            &&& acct.owner@ == owner@
            &&& acct.username@ == params.username@
            &&& acct.product_suffix@ == product_suffix@
            &&& acct.public_key@ == params.public_key@
            &&& acct.chain_mappings_root@ == leaf_hash_of(params.initial_chain_mapping@)
            &&& acct.chain_mapping_count == 1
            &&& acct.reputation == INITIAL_REPUTATION
            &&& acct.reputation_updated_at == now
            &&& acct.wf()
        },
{
    if username_has_at(params.username.as_str()) {
        return Err(EchoIDError::InvalidUsername);
    }
    if params.username.as_str().unicode_len() > MAX_USERNAME_LEN {
        return Err(EchoIDError::AliasTooLong);
    }
    let leaf = hash_chain_mapping(&params.initial_chain_mapping);
    let mut leaves: Vec<[u8; 32]> = Vec::new();
    leaves.push(leaf);
    let root = compute_merkle_root(&leaves);
    proof {
        assert(digests_of(leaves@) =~= seq![leaf@]);
        crate::merkle::lemma_single_leaf_root(leaf@);
    }
    Ok(
        AliasAccount {
            owner,
            username: params.username,
            product_suffix,
            public_key: params.public_key,
            chain_mappings_root: root,
            chain_mapping_count: 1,
            reputation: INITIAL_REPUTATION,
            reputation_updated_at: now,
        },
    )
}

/// Leaf digests of the witness mappings, in order.
fn hash_mappings(mappings: &Vec<ChainMapping>) -> (r: Vec<[u8; 32]>)
    ensures
        digests_of(r@) == witness_leaves(mappings@),
{
    let mut out: Vec<[u8; 32]> = Vec::new();
    let mut i: usize = 0;
    while i < mappings.len()
        invariant
            i <= mappings@.len(),
            digests_of(out@) == witness_leaves(mappings@).take(i as int),
        decreases mappings@.len() - i,
    {
        let ghost prev = out@;
        let h = hash_chain_mapping(&mappings[i]);
        out.push(h);
        i = i + 1;
        proof {
            let wl = witness_leaves(mappings@);
            assert(digests_of(prev).len() == prev.len());
            assert(wl.take(i - 1).len() == i - 1);
            assert forall|k: int| 0 <= k < i implies digests_of(out@)[k] == wl.take(i as int)[k] by {
                if k < i - 1 {
                    assert(digests_of(prev)[k] == wl.take(i - 1)[k]);
                    assert(out@[k] == prev[k]);
                } else {
                    assert(out@[k] == h);
                    assert(wl[k] == leaf_hash_of(mappings@[k]@));
                }
            }
            assert(digests_of(out@) =~= wl.take(i as int));
        }
    }
    proof {
        assert(witness_leaves(mappings@).take(mappings@.len() as int) =~= witness_leaves(
            mappings@,
        ));
    }
    out
}

/// Whether some witness mapping already claims `chain_id`.
fn contains_chain_id(mappings: &Vec<ChainMapping>, chain_id: u64) -> (r: bool)
    ensures
        r == has_chain_id(mappings@, chain_id),
{
    let mut i: usize = 0;
    while i < mappings.len()
        invariant
            i <= mappings@.len(),
            forall|j: int| 0 <= j < i ==> mappings@[j].chain_id != chain_id,
        decreases mappings@.len() - i,
    {
        if mappings[i].chain_id == chain_id {
            return true;
        }
        i = i + 1;
    }
    false
}

/// Adds one chain mapping to the record.  The caller resupplies the full
/// current mapping list as witness; it must recompute to the stored root,
/// the new chain id must be fresh among the witness mappings, and the record
/// must have capacity.  On success the root and count are updated together;
/// on any failure the record is untouched.
pub fn add_chain_mapping(
    alias: &mut AliasAccount,
    witness_mappings: &Vec<ChainMapping>,
    new_mapping: &ChainMapping,
) -> (r: Result<(), EchoIDError>)
    ensures
        r is Ok <==> merkle_root_of(witness_leaves(witness_mappings@)) == old(
            alias,
        ).chain_mappings_root@ && !has_chain_id(witness_mappings@, new_mapping.chain_id) && old(
            alias,
        ).chain_mapping_count < MAX_CHAIN_MAPPINGS,
        merkle_root_of(witness_leaves(witness_mappings@)) != old(alias).chain_mappings_root@ ==> r
            == Err::<(), EchoIDError>(EchoIDError::InvalidDerivedAccount),
        merkle_root_of(witness_leaves(witness_mappings@)) == old(alias).chain_mappings_root@
            && has_chain_id(witness_mappings@, new_mapping.chain_id) ==> r == Err::<(
        ), EchoIDError>(EchoIDError::ChainIDAlreadyExists),
        merkle_root_of(witness_leaves(witness_mappings@)) == old(alias).chain_mappings_root@
            && !has_chain_id(witness_mappings@, new_mapping.chain_id) && old(
            alias,
        ).chain_mapping_count >= MAX_CHAIN_MAPPINGS ==> r == Err::<(), EchoIDError>(
            EchoIDError::MaxChainMappingsReached,
        ),
        r is Ok ==> final(alias).chain_mappings_root@ == merkle_root_of(
            witness_leaves(witness_mappings@).push(leaf_hash_of(new_mapping@)),
        ) && final(alias).chain_mapping_count == old(alias).chain_mapping_count + 1,
        final(alias).owner == old(alias).owner,
        final(alias).username == old(alias).username,
        final(alias).product_suffix == old(alias).product_suffix,
        final(alias).public_key == old(alias).public_key,
        final(alias).reputation == old(alias).reputation,
        final(alias).reputation_updated_at == old(alias).reputation_updated_at,
        r is Err ==> *final(alias) == *old(alias),
        r is Ok && old(alias).wf() ==> final(alias).wf(),
{
    let leaves = hash_mappings(witness_mappings);
    let computed = compute_merkle_root(&leaves);
    if !bytes32_eq(&computed, &alias.chain_mappings_root) {
        return Err(EchoIDError::InvalidDerivedAccount);
    }
    if contains_chain_id(witness_mappings, new_mapping.chain_id) {
        return Err(EchoIDError::ChainIDAlreadyExists);
    }
    if alias.chain_mapping_count >= MAX_CHAIN_MAPPINGS {
        return Err(EchoIDError::MaxChainMappingsReached);
    }
    let new_leaf = hash_chain_mapping(new_mapping);
    match crate::merkle::root_with_appended_leaf(&leaves, &alias.chain_mappings_root, &new_leaf) {
        Ok(new_root) => {
            alias.chain_mappings_root = new_root;
            alias.chain_mapping_count = alias.chain_mapping_count + 1;
            Ok(())
        },
        Err(e) => Err(e),
    }
}

/// Applies a reputation change within policy and refreshes the update
/// timestamp.  An out-of-policy change fails and leaves both the score and
/// the timestamp untouched.  Authorization of the caller is the account
/// layer's concern.
pub fn update_reputation(alias: &mut AliasAccount, change: i64, now: i64) -> (r: Result<
    i64,
    EchoIDError,
>)
    ensures
        r is Ok <==> valid_reputation_change(old(alias).reputation as int, change as int),
        r is Ok ==> r->Ok_0 == old(alias).reputation + change && final(alias).reputation == old(
            alias,
        ).reputation + change && final(alias).reputation_updated_at == now,
        r is Err ==> r->Err_0 == EchoIDError::InvalidReputationChange && *final(alias) == *old(
            alias,
        ),
        final(alias).owner == old(alias).owner,
        final(alias).username == old(alias).username,
        final(alias).product_suffix == old(alias).product_suffix,
        final(alias).public_key == old(alias).public_key,
        final(alias).chain_mappings_root == old(alias).chain_mappings_root,
        final(alias).chain_mapping_count == old(alias).chain_mapping_count,
        old(alias).wf() ==> final(alias).wf(),
{
    if change < -MAX_REPUTATION_CHANGE || change > MAX_REPUTATION_CHANGE {
        return Err(EchoIDError::InvalidReputationChange);
    }
    let rep = alias.reputation;
    if change >= 0 {
        if rep > i64::MAX - change {
            return Err(EchoIDError::InvalidReputationChange);
        }
    } else {
        if rep < i64::MIN - change {
            return Err(EchoIDError::InvalidReputationChange);
        }
    }
    let new_rep = rep + change;
    if new_rep < 0 {
        return Err(EchoIDError::InvalidReputationChange);
    }
    alias.reputation = new_rep;
    alias.reputation_updated_at = now;
    Ok(new_rep)
}

/// The binding context of ownership proofs for this record.
fn ownership_context(alias: &AliasAccount) -> (r: Vec<u8>)
    ensures
        r@ == alias.spec_ownership_context(),
{
    let mut buf = alias.username.as_str().as_bytes_vec();
    let sep = "@";
    proof {
        reveal_strlit("@");
        assert(sep@ =~= seq!['@']);
    }
    let sep_bytes = sep.as_bytes_vec();
    crate::codec::push_bytes(&mut buf, sep_bytes.as_slice());
    let suffix_bytes = alias.product_suffix.as_str().as_bytes_vec();
    crate::codec::push_bytes(&mut buf, suffix_bytes.as_slice());
    buf
}

/// Checks a submitted ownership proof against the record's stored public
/// key, bound to the alias identity.  Malformed proof bytes are rejected as
/// an error; a well-formed but wrong proof yields false, never true.  The
/// record is never mutated.
pub fn verify_alias_ownership(alias: &AliasAccount, proof_bytes: &[u8]) -> (r: Result<
    bool,
    EchoIDError,
>)
    ensures
        r is Ok <==> proof_bytes@.len() == PROOF_LEN,
        r is Err ==> r->Err_0 == EchoIDError::InvalidInstruction,
        r is Ok ==> r->Ok_0 == proof_accepted(
            proof_bytes@.subrange(0, 32),
            proof_bytes@.subrange(32, 64),
            alias.public_key@,
            alias.spec_ownership_context(),
        ),
{
    let proof = match parse_proof(proof_bytes) {
        Ok(p) => p,
        Err(e) => { return Err(e) },
    };
    let context = ownership_context(alias);
    Ok(verify_proof(&proof, &alias.public_key, context.as_slice()))
}

} // verus!

