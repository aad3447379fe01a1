//! Merkle allowlists: a leaf is on the list when folding its proof into it,
//! one sibling at a time, gives the configured root. Each step hashes the
//! two 32-byte values in byte order, so a pair hashes the same whichever
//! side it is seen from.

use vstd::prelude::*;
use crate::hashing::{spec_sha256, lex_le, sha256, le32, eq32, concat32, lemma_lex_total, lemma_lex_antisymmetric};

verus! {

/// The hash of two nodes: SHA-256 of the smaller followed by the larger.
pub open spec fn spec_hash_pair(a: Seq<u8>, b: Seq<u8>) -> Seq<u8> {
    if lex_le(a, b) {
        spec_sha256(a + b)
    } else {
        spec_sha256(b + a)
    }
}

/// The root reached from `leaf` by hashing in the siblings of `proof` in order.
pub open spec fn spec_fold_root(leaf: Seq<u8>, proof: Seq<[u8; 32]>) -> Seq<u8>
    decreases proof.len(),
{
    if proof.len() == 0 {
        leaf
    } else {
        spec_hash_pair(spec_fold_root(leaf, proof.drop_last()), proof.last()@)
    }
}

/// Whether a registration with `leaf` and `proof` passes an allowlist with the
/// given root; with no root configured every registration passes.
pub open spec fn spec_admits(root: Option<[u8; 32]>, leaf: Seq<u8>, proof: Seq<[u8; 32]>) -> bool {
    match root {
        None => true,
        Some(r) => spec_fold_root(leaf, proof) == r@,
    }
}

/// Hashes a pair of nodes in byte order.
pub fn hash_pair(env: &soroban_sdk::Env, a: &[u8; 32], b: &[u8; 32]) -> (h: [u8; 32])
    ensures
        h@ == spec_hash_pair(a@, b@),
{
    if le32(a, b) {
        let data = concat32(a, b);
        sha256(env, &data)
    } else {
        let data = concat32(b, a);
        sha256(env, &data)
    }
}

/// Folds `proof` into `leaf`, giving the root that the proof claims.
pub fn compute_root(env: &soroban_sdk::Env, leaf: &[u8; 32], proof: &Vec<[u8; 32]>) -> (root: [u8; 32])
    ensures
        root@ == spec_fold_root(leaf@, proof@),
{
    let mut acc: [u8; 32] = *leaf;
    let mut i: usize = 0;
    assert(proof@.take(0) =~= Seq::<[u8; 32]>::empty());
    while i < proof.len()
        invariant
            0 <= i <= proof@.len(),
            acc@ == spec_fold_root(leaf@, proof@.take(i as int)),
        decreases proof@.len() - i,
    {
        let sibling: [u8; 32] = proof[i];
        acc = hash_pair(env, &acc, &sibling);
        assert(proof@.take(i + 1).drop_last() =~= proof@.take(i as int));
        i = i + 1;
    }
    assert(proof@.take(proof@.len() as int) =~= proof@);
    acc
}

/// Whether `proof` shows `leaf` under `root`.
pub fn verify_proof(env: &soroban_sdk::Env, leaf: &[u8; 32], proof: &Vec<[u8; 32]>, root: &[u8; 32]) -> (ok: bool)
    ensures
        ok == (spec_fold_root(leaf@, proof@) == root@),
{
    let computed = compute_root(env, leaf, proof);
    eq32(&computed, root)
}

/// Whether a registration with `leaf` and `proof` passes the allowlist `root`.
pub fn admits(env: &soroban_sdk::Env, root: &Option<[u8; 32]>, leaf: &[u8; 32], proof: &Vec<[u8; 32]>) -> (ok: bool)
    ensures
        ok == spec_admits(*root, leaf@, proof@),
{
    match root {
        None => true,
        Some(r) => verify_proof(env, leaf, proof, r),
    }
}

/// Hashing a pair does not depend on the order in which the two nodes come.
pub proof fn law_hash_pair_symmetric(a: Seq<u8>, b: Seq<u8>)
    requires
        a.len() == b.len(),
    ensures
        spec_hash_pair(a, b) == spec_hash_pair(b, a),
{
    lemma_lex_total(a, b);
    if lex_le(a, b) && lex_le(b, a) {
        lemma_lex_antisymmetric(a, b);
    }
}

/// With no siblings, a leaf is shown under a root exactly when it is the root.
pub proof fn law_empty_proof(leaf: Seq<u8>, root: Seq<u8>)
    ensures
        (spec_fold_root(leaf, Seq::empty()) == root) == (leaf == root),
{
}

/// In a tree of two leaves, each leaf's proof is the other leaf, and both
/// proofs reach the same root.
pub proof fn law_two_leaf_tree(a: [u8; 32], b: [u8; 32])
    ensures
        spec_fold_root(a@, seq![b]) == spec_fold_root(b@, seq![a]),
        spec_fold_root(a@, seq![b]) == spec_hash_pair(a@, b@),
{
    assert(seq![b].drop_last() =~= Seq::<[u8; 32]>::empty());
    assert(seq![a].drop_last() =~= Seq::<[u8; 32]>::empty());
    assert(spec_fold_root(a@, Seq::<[u8; 32]>::empty()) == a@);
    assert(spec_fold_root(b@, Seq::<[u8; 32]>::empty()) == b@);
    assert(seq![b].last() == b);
    assert(seq![a].last() == a);
    assert(a@.len() == 32 && b@.len() == 32) by {
        vstd::array::array_len_matches_n(&a);
        vstd::array::array_len_matches_n(&b);
    }
    law_hash_pair_symmetric(a@, b@);
}

/// Appending a sibling to a proof hashes it into the root the shorter proof reached.
pub proof fn law_fold_step(leaf: Seq<u8>, proof: Seq<[u8; 32]>, sibling: [u8; 32])
    ensures
        spec_fold_root(leaf, proof.push(sibling)) == spec_hash_pair(spec_fold_root(leaf, proof), sibling@),
{
    assert(proof.push(sibling).drop_last() =~= proof);
}

/// A pair of 32-byte nodes hashes as SHA-256 of the one that comes first in
/// byte order followed by the other; so a one-sibling proof reaches the hash
/// of the two in that order.
pub proof fn law_hash_pair_sorted(a: Seq<u8>, b: Seq<u8>)
    requires
        a.len() == 32,
        b.len() == 32,
    ensures
        lex_le(a, b) ==> spec_hash_pair(a, b) == spec_sha256(a + b),
        lex_le(b, a) ==> spec_hash_pair(a, b) == spec_sha256(b + a),
        lex_le(a, b) ==> spec_hash_pair(b, a) == spec_sha256(a + b),
{
    lemma_lex_total(a, b);
    if lex_le(a, b) && lex_le(b, a) {
        lemma_lex_antisymmetric(a, b);
    }
}

/// A leaf and a sibling that comes after it in byte order fold to SHA-256 of
/// the leaf followed by the sibling, and the other way round.
pub proof fn law_one_sibling_root(leaf: [u8; 32], sibling: [u8; 32])
    ensures
        lex_le(leaf@, sibling@) ==> spec_fold_root(leaf@, seq![sibling]) == spec_sha256(leaf@ + sibling@),
        lex_le(sibling@, leaf@) ==> spec_fold_root(leaf@, seq![sibling]) == spec_sha256(sibling@ + leaf@),
{
    law_two_leaf_tree(leaf, sibling);
    assert(leaf@.len() == 32 && sibling@.len() == 32) by {
        vstd::array::array_len_matches_n(&leaf);
        vstd::array::array_len_matches_n(&sibling);
    }
    law_hash_pair_sorted(leaf@, sibling@);
}

} // verus!
