use soroban_sdk::{Bytes, Env};
use trivela::allowlist::{admits, compute_root, hash_pair, verify_proof};
use trivela::hashing::{concat32, eq32, le32};

fn hex32(s: &str) -> [u8; 32] {
    let mut out = [0u8; 32];
    for i in 0..32 {
        out[i] = u8::from_str_radix(&s[2 * i..2 * i + 2], 16).unwrap();
    }
    out
}

fn host_sha256(env: &Env, data: &[u8]) -> [u8; 32] {
    env.crypto().sha256(&Bytes::from_slice(env, data)).to_array()
}

#[test]
fn hash_pair_of_zero_nodes_is_the_known_digest() {
    let env = Env::default();
    let zero = [0u8; 32];
    let h = hash_pair(&env, &zero, &zero);
    assert_eq!(h, hex32("f5a5fd42d16a20302798ef6ed309979b43003d2320d9f0e8ea9831a92759fb4b"));
    assert_ne!(h, zero);
}

#[test]
fn hash_pair_is_symmetric() {
    let env = Env::default();
    let a = [0xAAu8; 32];
    let b = [0xBBu8; 32];
    assert_eq!(hash_pair(&env, &a, &b), hash_pair(&env, &b, &a));
    let mut both = [0u8; 64];
    both[..32].copy_from_slice(&a);
    both[32..].copy_from_slice(&b);
    assert_eq!(hash_pair(&env, &b, &a), host_sha256(&env, &both));
}

#[test]
fn byte_order_is_lexicographic() {
    let mut a = [7u8; 32];
    let mut b = [7u8; 32];
    assert!(le32(&a, &b) && le32(&b, &a));
    assert!(eq32(&a, &b));
    a[3] = 1;
    b[3] = 2;
    a[4] = 200;
    assert!(le32(&a, &b));
    assert!(!le32(&b, &a));
    assert!(!eq32(&a, &b));
    let c = concat32(&a, &b);
    assert_eq!(c.len(), 64);
    assert_eq!(&c[..32], &a[..]);
    assert_eq!(&c[32..], &b[..]);
}

#[test]
fn empty_proof_shows_only_the_root_itself() {
    let env = Env::default();
    let leaf = [0x11u8; 32];
    assert_eq!(compute_root(&env, &leaf, &Vec::new()), leaf);
    assert!(verify_proof(&env, &leaf, &Vec::new(), &leaf));
    assert!(!verify_proof(&env, &leaf, &Vec::new(), &[0x12u8; 32]));
}

#[test]
fn four_leaf_tree_proofs_verify() {
    let env = Env::default();
    let leaves = [[1u8; 32], [2u8; 32], [3u8; 32], [4u8; 32]];
    let n01 = hash_pair(&env, &leaves[0], &leaves[1]);
    let n23 = hash_pair(&env, &leaves[2], &leaves[3]);
    let root = hash_pair(&env, &n01, &n23);
    assert!(verify_proof(&env, &leaves[0], &vec![leaves[1], n23], &root));
    assert!(verify_proof(&env, &leaves[1], &vec![leaves[0], n23], &root));
    assert!(verify_proof(&env, &leaves[2], &vec![leaves[3], n01], &root));
    assert!(verify_proof(&env, &leaves[3], &vec![leaves[2], n01], &root));
    assert!(!verify_proof(&env, &leaves[3], &vec![leaves[2], n23], &root));
    assert!(!verify_proof(&env, &leaves[3], &vec![leaves[2]], &root));
}

#[test]
fn without_a_root_everyone_is_admitted() {
    let env = Env::default();
    let leaf = [9u8; 32];
    assert!(admits(&env, &None, &leaf, &Vec::new()));
    assert!(!admits(&env, &Some([8u8; 32]), &leaf, &Vec::new()));
    assert!(admits(&env, &Some(leaf), &leaf, &Vec::new()));
}
