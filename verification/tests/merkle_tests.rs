use zkdpp::hashing::hash_bytes;
use zkdpp::merkle::{verify_merkle_proof, CommitmentError, MerkleTree};

fn make_leaf(data: &[u8]) -> Vec<u8> {
    hash_bytes(data)
}

#[test]
fn test_single_leaf() {
    let leaf = make_leaf(b"claim1");
    let tree = MerkleTree::build(vec![leaf.clone()]).unwrap();

    assert_eq!(tree.leaf_count(), 1);
    assert_eq!(tree.root(), leaf);
}

#[test]
fn test_two_leaves() {
    let leaves = vec![make_leaf(b"claim1"), make_leaf(b"claim2")];
    let tree = MerkleTree::build(leaves.clone()).unwrap();

    assert_eq!(tree.leaf_count(), 2);
    assert_ne!(tree.root(), leaves[0]);
    assert_ne!(tree.root(), leaves[1]);
}

#[test]
fn test_prove_and_verify() {
    let leaves: Vec<_> = (0..8u8).map(|i| make_leaf(&[i])).collect();
    let tree = MerkleTree::build(leaves).unwrap();

    for i in 0..8 {
        let proof = tree.prove(i);
        assert!(tree.verify(&proof));
        assert!(verify_merkle_proof(&proof.leaf, &proof.path, &proof.indices, &tree.root()));
    }
}

#[test]
fn test_invalid_proof_wrong_leaf() {
    let leaves: Vec<_> = (0..4u8).map(|i| make_leaf(&[i])).collect();
    let tree = MerkleTree::build(leaves).unwrap();

    let mut proof = tree.prove(0);
    proof.leaf = make_leaf(b"wrong");

    assert!(!tree.verify(&proof));
}

#[test]
fn test_invalid_proof_wrong_path() {
    let leaves: Vec<_> = (0..4u8).map(|i| make_leaf(&[i])).collect();
    let tree = MerkleTree::build(leaves).unwrap();

    let mut proof = tree.prove(0);
    if !proof.path.is_empty() {
        proof.path[0] = make_leaf(b"wrong");
    }

    assert!(!tree.verify(&proof));
}

#[test]
fn test_odd_number_of_leaves() {
    let leaves: Vec<_> = (0..5u8).map(|i| make_leaf(&[i])).collect();
    let tree = MerkleTree::build(leaves).unwrap();

    for i in 0..5 {
        let proof = tree.prove(i);
        assert!(tree.verify(&proof));
    }
}

#[test]
fn test_empty_claims_error() {
    let result = MerkleTree::build(vec![]);
    assert!(matches!(result, Err(CommitmentError::EmptyClaims)));
}

#[test]
fn tampered_indices_fail() {
    let leaves: Vec<_> = (0..4u8).map(|i| make_leaf(&[i])).collect();
    let tree = MerkleTree::build(leaves).unwrap();

    let mut proof = tree.prove(2);
    proof.indices[0] = 1 - proof.indices[0];
    assert!(!tree.verify(&proof));

    let proof2 = tree.prove(2);
    let mut short = proof2;
    short.path.pop();
    assert!(!tree.verify(&short));
}

#[test]
fn pair_order_is_positional() {
    // swapping two leaves changes the root: concatenation is not
    // sorted, position decides the order
    let a = make_leaf(b"a");
    let b = make_leaf(b"b");
    let t1 = MerkleTree::build(vec![a.clone(), b.clone()]).unwrap();
    let t2 = MerkleTree::build(vec![b, a]).unwrap();
    assert_ne!(t1.root(), t2.root());
}
