//! Tests of the Merkle tree builder: heights, padding, order independence
//! of sibling pairs, a fixed regression root, and the capacity error.

use solana_program::keccak::hashv;
use token_core::merkle::{MerkleError, MerkleTree, MAX_LEAVES};

fn leaf(fill: u8) -> Vec<u8> {
    let mut bytes = vec![0u8; 32];
    let mut i = 0;
    while i < 32 {
        bytes[i] = fill.wrapping_add(i as u8);
        i += 1;
    }
    bytes
}

/// The pair rule the builder promises: hash the lexicographically smaller
/// child first.
fn pair(x: &[u8], y: &[u8]) -> Vec<u8> {
    let digest = if x < y { hashv(&[x, y]) } else { hashv(&[y, x]) };
    digest.to_bytes().to_vec()
}

#[test]
fn merkle_tree_2_element() {
    let a = leaf(1);
    let b = leaf(101);
    let tree = MerkleTree::new(vec![a.clone(), b.clone()]).unwrap();
    assert_eq!(tree.height, 2);
    assert_eq!(tree.root.hash, pair(&a, &b));
    assert_eq!(tree.root.row, 1);
    assert_eq!(tree.root.index, 0);
}

#[test]
fn merkle_tree_2_element_reverse() {
    let a = leaf(1);
    let b = leaf(101);
    let forward = MerkleTree::new(vec![a.clone(), b.clone()]).unwrap();
    let backward = MerkleTree::new(vec![b, a]).unwrap();
    assert_eq!(backward.height, 2);
    assert_eq!(backward.root.hash, forward.root.hash);
}

#[test]
fn merkle_tree_4_element() {
    let leaves: Vec<Vec<u8>> = vec![leaf(1), leaf(51), leaf(101), leaf(151)];
    let tree = MerkleTree::new(leaves.clone()).unwrap();
    assert_eq!(tree.height, 3);
    let left = pair(&leaves[0], &leaves[1]);
    let right = pair(&leaves[2], &leaves[3]);
    assert_eq!(tree.root.hash, pair(&left, &right));
}

#[test]
fn merkle_tree_4_element_reverse() {
    let forward = MerkleTree::new(vec![leaf(1), leaf(51), leaf(101), leaf(151)]).unwrap();
    let backward = MerkleTree::new(vec![leaf(151), leaf(101), leaf(51), leaf(1)]).unwrap();
    assert_eq!(backward.height, 3);
    assert_eq!(backward.root.hash, forward.root.hash);
}

#[test]
fn merkle_tree_single_leaf() {
    let a = leaf(7);
    let tree = MerkleTree::new(vec![a.clone()]).unwrap();
    assert_eq!(tree.height, 1);
    assert_eq!(tree.root.hash, a);
    assert_eq!(tree.nodes.len(), 1);
    assert_eq!(tree.nodes[0].len(), 1);
}

#[test]
fn merkle_tree_empty_leaf_list() {
    let tree = MerkleTree::new(Vec::new()).unwrap();
    assert_eq!(tree.height, 1);
    assert_eq!(tree.root.hash, vec![0u8; 32]);
}

#[test]
fn merkle_tree_3_element_padding() {
    let leaves: Vec<Vec<u8>> = vec![leaf(1), leaf(51), leaf(101)];
    let tree = MerkleTree::new(leaves.clone()).unwrap();
    assert_eq!(tree.height, 3);
    assert_eq!(tree.nodes[0].len(), 4);
    assert_eq!(tree.nodes[0][3].hash, vec![0u8; 32]);
    let again = MerkleTree::new(leaves.clone()).unwrap();
    assert_eq!(tree.root.hash, again.root.hash);
    let left = pair(&leaves[0], &leaves[1]);
    let right = pair(&leaves[2], &[0u8; 32]);
    assert_eq!(tree.root.hash, pair(&left, &right));
}

#[test]
fn merkle_tree_node_labels() {
    let tree = MerkleTree::new(vec![leaf(1), leaf(51), leaf(101), leaf(151)]).unwrap();
    assert_eq!(tree.nodes.len(), 3);
    assert_eq!(tree.nodes[0].len(), 4);
    assert_eq!(tree.nodes[1].len(), 2);
    assert_eq!(tree.nodes[2].len(), 1);
    for (r, row) in tree.nodes.iter().enumerate() {
        for (j, node) in row.iter().enumerate() {
            assert_eq!(node.row, r as u64);
            assert_eq!(node.index, j as u64);
            assert_eq!(node.hash.len(), 32);
        }
    }
}

#[test]
fn merkle_tree_zero_leaf_regression_root() {
    let zero = vec![0u8; 32];
    let tree = MerkleTree::new(vec![zero.clone(), zero.clone()]).unwrap();
    let expected: [u8; 32] = [
        0xad, 0x32, 0x28, 0xb6, 0x76, 0xf7, 0xd3, 0xcd, 0x42, 0x84, 0xa5, 0x44, 0x3f, 0x17,
        0xf1, 0x96, 0x2b, 0x36, 0xe4, 0x91, 0xb3, 0x0a, 0x40, 0xb2, 0x40, 0x58, 0x49, 0xe5,
        0x97, 0xba, 0x5f, 0xb5,
    ];
    assert_eq!(tree.root.hash, expected.to_vec());
    assert_eq!(tree.root.hash, hashv(&[&zero, &zero]).to_bytes().to_vec());
}

#[test]
fn merkle_tree_capacity_boundary() {
    let mut leaves: Vec<Vec<u8>> = Vec::new();
    for i in 0..MAX_LEAVES {
        leaves.push(leaf((i % 251) as u8));
    }
    let tree = MerkleTree::new(leaves.clone()).unwrap();
    assert_eq!(tree.height, 13);
    assert_eq!(tree.nodes[0].len(), 4096);

    leaves.push(leaf(250));
    assert!(matches!(
        MerkleTree::new(leaves),
        Err(MerkleError::CapacityExceeded)
    ));
}
