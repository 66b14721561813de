//! Binary Merkle trees over 32-byte leaf hashes, with inclusion proofs.
//!
//! Level 0 holds the leaves in their given order; each higher level pairs
//! adjacent nodes left to right and hashes the 64-byte concatenation in
//! positional order. A level with an odd node count pairs its last node
//! with itself. A proof generated for any leaf replays to the root.

use vstd::prelude::*;
use crate::hashing::{blake3_of, hash_concat, bytes_eq, copy_bytes, copy_byte_rows};

verus! {

broadcast use crate::hashing::lemma_bytes_deep_view;

/// Maximum tree depth.
pub const MAX_DEPTH: usize = 32;

/// Errors in commitment operations.
#[derive(Debug, Clone, Copy, PartialEq, Eq, Structural)]
pub enum CommitmentError {
    /// A proof did not verify.
    InvalidProof,
    /// No leaves were given to commit to.
    EmptyClaims,
    /// The tree would exceed the maximum depth; carries that maximum.
    DepthExceeded(usize),
}

/// A bare commitment to a set of claims: the Merkle root over their
/// leaf hashes with its size and provenance.
#[derive(Debug)]
pub struct Commitment {
    /// Merkle root of all claim hashes.
    pub root: Vec<u8>,
    /// Number of claims in this commitment.
    pub claim_count: usize,
    /// When the commitment was created (unix seconds).
    pub created_at: u64,
    /// Supplier identifier.
    pub supplier_id: String,
}

/// A Merkle tree built from claim hashes.
#[derive(Debug)]
pub struct MerkleTree {
    /// All nodes, level by level from leaves to root.
    nodes: Vec<Vec<Vec<u8>>>,
    /// The original leaf hashes.
    leaves: Vec<Vec<u8>>,
}

/// A proof that a leaf exists in a Merkle tree.
#[derive(Debug)]
pub struct MerkleProof {
    /// The leaf hash being proved.
    pub leaf: Vec<u8>,
    /// Sibling hashes from leaf to root.
    pub path: Vec<Vec<u8>>,
    /// Position at each level: 0 when the current node is the left
    /// operand, 1 when it is the right.
    pub indices: Vec<u8>,
}

/// Parent of two adjacent nodes: the hash of left, then right.
pub open spec fn combine(l: Seq<u8>, r: Seq<u8>) -> Seq<u8> {
    blake3_of(l + r)
}

/// The parent of position `j` in a level: its two children hashed in
/// order, the last node paired with itself when it has no right sibling.
pub open spec fn pair_at(level: Seq<Seq<u8>>, j: int) -> Seq<u8> {
    if 2 * j + 1 < level.len() {
        combine(level[2 * j], level[2 * j + 1])
    } else {
        combine(level[2 * j], level[2 * j])
    }
}

/// Whether `parent` is exactly the level built on top of `child`.
pub open spec fn is_parent_level(child: Seq<Seq<u8>>, parent: Seq<Seq<u8>>) -> bool {
    &&& parent.len() == (child.len() + 1) / 2
    &&& forall|j: int| 0 <= j < parent.len() ==> parent[j] == pair_at(child, j)
}

/// The level built on top of a level by the pairing rule.
pub open spec fn parent_level_of(level: Seq<Seq<u8>>) -> Seq<Seq<u8>> {
    Seq::new((level.len() + 1) / 2, |j: int| pair_at(level, j))
}

/// The Merkle root determined by an ordered list of leaves: pair
/// levels upward until one node remains. A single leaf is its own
/// root.
pub open spec fn merkle_root_of(leaves: Seq<Seq<u8>>) -> Seq<u8>
    decreases leaves.len(),
{
    if leaves.len() <= 1 {
        if leaves.len() == 1 {
            leaves[0]
        } else {
            Seq::empty()
        }
    } else {
        merkle_root_of(parent_level_of(leaves))
    }
}

proof fn lemma_parent_root(child: Seq<Seq<u8>>, parent: Seq<Seq<u8>>)
    requires
        is_parent_level(child, parent),
        child.len() >= 2,
    ensures
        merkle_root_of(child) == merkle_root_of(parent),
{
    assert(parent =~= parent_level_of(child));
}

/// One verification step: combine the current hash with the recorded
/// sibling, on the side the index bit says.
pub open spec fn step(cur: Seq<u8>, sib: Seq<u8>, b: u8) -> Seq<u8> {
    if b == 0 {
        combine(cur, sib)
    } else {
        combine(sib, cur)
    }
}

/// Replays a proof: folds the sibling path over the leaf, one step per
/// level.
pub open spec fn fold_path(cur: Seq<u8>, path: Seq<Seq<u8>>, idx: Seq<u8>) -> Seq<u8>
    decreases path.len(),
{
    if path.len() == 0 {
        cur
    } else {
        fold_path(step(cur, path[0], idx[0]), path.drop_first(), idx.drop_first())
    }
}

/// What it means for a proof to verify against a root.
pub open spec fn proof_ok(leaf: Seq<u8>, path: Seq<Seq<u8>>, idx: Seq<u8>, root: Seq<u8>) -> bool {
    path.len() == idx.len() && fold_path(leaf, path, idx) == root
}

proof fn lemma_fold_path_snoc(cur: Seq<u8>, path: Seq<Seq<u8>>, idx: Seq<u8>, sib: Seq<u8>, b: u8)
    requires
        path.len() == idx.len(),
    ensures
        fold_path(cur, path.push(sib), idx.push(b)) == step(fold_path(cur, path, idx), sib, b),
    decreases path.len(),
{
    let p2 = path.push(sib);
    let i2 = idx.push(b);
    if path.len() == 0 {
        assert(p2.len() == 1);
        assert(p2[0] == sib);
        assert(i2[0] == b);
        assert(p2.drop_first() =~= Seq::<Seq<u8>>::empty());
        assert(i2.drop_first() =~= Seq::<u8>::empty());
        assert(fold_path(cur, p2, i2) == fold_path(step(cur, p2[0], i2[0]), p2.drop_first(),
            i2.drop_first()));
        assert(fold_path(step(cur, sib, b), p2.drop_first(), i2.drop_first()) == step(cur, sib,
            b));
        assert(fold_path(cur, path, idx) == cur);
    } else {
        assert(p2[0] == path[0]);
        assert(i2[0] == idx[0]);
        assert(p2.drop_first() =~= path.drop_first().push(sib));
        assert(i2.drop_first() =~= idx.drop_first().push(b));
        assert(fold_path(cur, p2, i2) == fold_path(step(cur, p2[0], i2[0]), p2.drop_first(),
            i2.drop_first()));
        lemma_fold_path_snoc(step(cur, path[0], idx[0]), path.drop_first(), idx.drop_first(),
            sib, b);
        assert(fold_path(cur, path, idx) == fold_path(step(cur, path[0], idx[0]),
            path.drop_first(), idx.drop_first()));
    }
}

impl MerkleTree {
    /// The tree's levels, leaves first.
    pub closed spec fn levels(self) -> Seq<Seq<Seq<u8>>> {
        self.nodes.deep_view()
    }

    /// The leaf hashes the tree was built from.
    pub closed spec fn spec_leaves(self) -> Seq<Seq<u8>> {
        self.leaves.deep_view()
    }

    /// The root hash.
    pub closed spec fn spec_root(self) -> Seq<u8> {
        self.levels().last()[0]
    }

    /// The tree's depth: the number of levels above the leaves, and the
    /// length of every inclusion proof.
    pub open spec fn spec_depth(self) -> int {
        self.levels().len() - 1
    }

    /// Structural invariant: the bottom level is the leaves, the top
    /// level is the single root, and every level is built from the one
    /// below by the positional pairing rule.
    pub closed spec fn wf(self) -> bool {
        &&& self.levels().len() >= 1
        &&& self.spec_leaves() == self.levels()[0]
        &&& self.levels()[0].len() >= 1
        &&& self.levels().last().len() == 1
        &&& forall|l: int| 0 <= l < self.levels().len() - 1 ==> #[trigger] self.levels()[l].len()
            >= 2
        &&& forall|l: int| 0 <= l < self.levels().len() - 1 ==> is_parent_level(
            self.levels()[l],
            #[trigger] self.levels()[l + 1],
        )
    }

    /// Builds a Merkle tree from an ordered list of leaf hashes.
    ///
    /// Fails with `EmptyClaims` on an empty list and with
    /// `DepthExceeded` when more than 2^32 leaves are given. The
    /// resulting root is exactly `merkle_root_of` the given leaves; a
    /// single-leaf tree's root is that leaf.
    pub fn build(claim_hashes: Vec<Vec<u8>>) -> (r: Result<MerkleTree, CommitmentError>)
        ensures
            r matches Err(e) ==> (e == CommitmentError::EmptyClaims <==> claim_hashes@.len()
                == 0) && (e == CommitmentError::DepthExceeded(32usize) <==> claim_hashes@.len()
                > 0x1_0000_0000),
            r is Ok <==> 1 <= claim_hashes@.len() <= 0x1_0000_0000,
            r matches Ok(t) ==> t.wf() && t.spec_leaves() == claim_hashes.deep_view()
                && t.spec_root() == merkle_root_of(claim_hashes.deep_view()),
            claim_hashes@.len() == 1 ==> (r matches Ok(t) ==> t.spec_root()
                == claim_hashes.deep_view()[0]),
    {
        if claim_hashes.len() == 0 {
            return Err(CommitmentError::EmptyClaims);
        }
        if claim_hashes.len() as u64 > 4294967296u64 {
            return Err(CommitmentError::DepthExceeded(MAX_DEPTH));
        }

        let leaves = copy_byte_rows(&claim_hashes);
        let mut nodes: Vec<Vec<Vec<u8>>> = Vec::new();
        nodes.push(claim_hashes);

        loop
            invariant
                nodes@.len() >= 1,
                nodes.deep_view()[0] == leaves.deep_view(),
                nodes.deep_view()[0].len() >= 1,
                nodes.deep_view().last().len() >= 1,
                forall|l: int| 0 <= l < nodes.deep_view().len() - 1 ==> #[trigger] nodes
                    .deep_view()[l].len() >= 2,
                forall|l: int| 0 <= l < nodes.deep_view().len() - 1 ==> is_parent_level(
                    nodes.deep_view()[l],
                    #[trigger] nodes.deep_view()[l + 1],
                ),
            ensures
                nodes.deep_view().last().len() == 1,
            decreases nodes.deep_view().last().len(),
        {
            let cur_len = nodes[nodes.len() - 1].len();
            if cur_len <= 1 {
                break;
            }
            let parents = cur_len / 2 + cur_len % 2;
            let mut next: Vec<Vec<u8>> = Vec::new();
            let mut j: usize = 0;
            let ghost cur_view = nodes.deep_view().last();
            while j < parents
                invariant
                    nodes@.len() >= 1,
                    cur_view == nodes.deep_view().last(),
                    cur_len == cur_view.len(),
                    cur_len >= 2,
                    parents == cur_len / 2 + cur_len % 2,
                    j <= parents,
                    next@.len() == j,
                    forall|k: int| 0 <= k < j ==> #[trigger] next.deep_view()[k] == pair_at(
                        cur_view, k),
                decreases parents - j,
            {
                let idx2 = 2 * j;
                let cur = &nodes[nodes.len() - 1];
                proof {
                    assert(cur.deep_view() == cur_view);
                }
                let h: Vec<u8> = if idx2 + 1 < cur_len {
                    hash_concat(&cur[idx2], &cur[idx2 + 1])
                } else {
                    hash_concat(&cur[idx2], &cur[idx2])
                };
                proof {
                    assert(h@ == pair_at(cur_view, j as int));
                }
                let ghost old_next_dv = next.deep_view();
                let ghost hv = h@;
                next.push(h);
                proof {
                    assert forall|k: int| 0 <= k < j + 1 implies #[trigger] next.deep_view()[k]
                        == pair_at(cur_view, k) by {
                        if k < j {
                            assert(next.deep_view()[k] == old_next_dv[k]);
                        } else {
                            assert(next.deep_view()[k] == hv);
                        }
                    }
                }
                j = j + 1;
            }
            proof {
                assert(next.deep_view().len() == (cur_view.len() + 1) / 2);
                assert(is_parent_level(cur_view, next.deep_view()));
            }
            let ghost old_nodes_view = nodes.deep_view();
            let ghost next_dv = next.deep_view();
            nodes.push(next);
            proof {
                let nv = nodes.deep_view();
                assert(nv.len() == old_nodes_view.len() + 1);
                assert(forall|l: int| 0 <= l < old_nodes_view.len() ==> #[trigger] nv[l]
                    == old_nodes_view[l]);
                assert(nv[nv.len() - 1] == next_dv);
                assert(nv.last() == next_dv);
                assert(old_nodes_view[old_nodes_view.len() - 1] == cur_view);
                assert forall|l: int| 0 <= l < nv.len() - 1 implies #[trigger] nv[l].len() >= 2 by {
                    if l < old_nodes_view.len() - 1 {
                        assert(nv[l] == old_nodes_view[l]);
                    } else {
                        assert(nv[l] == cur_view);
                    }
                }
                assert forall|l: int| 0 <= l < nv.len() - 1 implies is_parent_level(nv[l],
                    #[trigger] nv[l + 1]) by {
                    if l < old_nodes_view.len() - 1 {
                        assert(nv[l] == old_nodes_view[l]);
                        assert(nv[l + 1] == old_nodes_view[l + 1]);
                    } else {
                        assert(nv[l] == cur_view);
                        assert(nv[l + 1] == next_dv);
                    }
                }
                assert(nv[0] == old_nodes_view[0]);
            }
        }

        let tree = MerkleTree { nodes, leaves };
        proof {
            lemma_wf_root(tree);
        }
        Ok(tree)
    }

    /// The root hash of the tree. A single-leaf tree's root is that
    /// leaf.
    pub fn root(&self) -> (r: Vec<u8>)
        requires
            self.wf(),
        ensures
            r@ == self.spec_root(),
            r@ == merkle_root_of(self.spec_leaves()),
    {
        proof {
            lemma_wf_root(*self);
        }
        copy_bytes(&self.nodes[self.nodes.len() - 1][0])
    }

    /// The number of leaves in the tree.
    pub fn leaf_count(&self) -> (r: usize)
        ensures
            r == self.spec_leaves().len(),
    {
        self.leaves.len()
    }

    /// Generates an inclusion proof for the leaf at `index`. The proof
    /// replays to this tree's root: verification of an untampered proof
    /// always succeeds.
    pub fn prove(&self, index: usize) -> (r: MerkleProof)
        requires
            self.wf(),
            index < self.spec_leaves().len(),
        ensures
            r.leaf@ == self.spec_leaves()[index as int],
            r.path@.len() == self.spec_depth(),
            r.indices@.len() == r.path@.len(),
            forall|k: int| 0 <= k < r.indices@.len() ==> #[trigger] r.indices@[k] <= 1,
            proof_ok(r.leaf@, r.path.deep_view(), r.indices@, self.spec_root()),
    {
        let leaf = copy_bytes(&self.leaves[index]);
        let mut path: Vec<Vec<u8>> = Vec::new();
        let mut indices: Vec<u8> = Vec::new();
        let mut current_index: usize = index;
        let mut level: usize = 0;
        let depth = self.nodes.len() - 1;

        while level < depth
            invariant
                self.wf(),
                depth == self.levels().len() - 1,
                level <= depth,
                current_index < self.levels()[level as int].len(),
                path@.len() == level,
                indices@.len() == level,
                forall|k: int| 0 <= k < indices@.len() ==> #[trigger] indices@[k] <= 1,
                leaf@ == self.spec_leaves()[index as int],
                fold_path(leaf@, path.deep_view(), indices@) == self.levels()[level as int][
                    current_index as int],
            decreases depth - level,
        {
            let level_nodes = &self.nodes[level];
            let level_len = level_nodes.len();
            let ghost lvl = self.levels()[level as int];
            proof {
                assert(level_nodes.deep_view() == lvl);
                assert(lvl.len() == level_len);
                assert(level_len >= 2);
            }
            let is_right = current_index % 2 == 1;
            let sibling_index: usize = if is_right {
                current_index - 1
            } else {
                if current_index + 1 < level_len {
                    current_index + 1
                } else {
                    current_index
                }
            };
            let sib = copy_bytes(&level_nodes[sibling_index]);
            let bit: u8 = if is_right {
                1
            } else {
                0
            };
            let ghost sib_v = sib@;
            let ghost old_path_dv = path.deep_view();
            let ghost old_idx = indices@;
            proof {
                lemma_fold_path_snoc(leaf@, old_path_dv, old_idx, sib_v, bit);
                assert(sib_v == lvl[sibling_index as int]);
            }
            path.push(sib);
            indices.push(bit);
            proof {
                assert(path.deep_view() =~= old_path_dv.push(sib_v));
                assert(indices@ =~= old_idx.push(bit));
                assert(fold_path(leaf@, path.deep_view(), indices@) == step(lvl[
                    current_index as int], sib_v, bit));
                let parent = self.levels()[level as int + 1];
                assert(is_parent_level(lvl, parent));
                let j = current_index as int / 2;
                assert(parent.len() == (lvl.len() + 1) / 2);
                assert(j < parent.len());
                assert(parent[j] == pair_at(lvl, j));
                if is_right {
                    assert(2 * j == current_index - 1);
                    assert(2 * j + 1 == current_index);
                    assert(step(lvl[current_index as int], sib_v, bit) == combine(lvl[2 * j],
                        lvl[2 * j + 1]));
                    assert(pair_at(lvl, j) == combine(lvl[2 * j], lvl[2 * j + 1]));
                } else {
                    assert(2 * j == current_index);
                    if current_index + 1 < level_len {
                        assert(step(lvl[current_index as int], sib_v, bit) == combine(lvl[2 * j],
                            lvl[2 * j + 1]));
                    } else {
                        assert(step(lvl[current_index as int], sib_v, bit) == combine(lvl[2 * j],
                            lvl[2 * j]));
                    }
                }
                assert(fold_path(leaf@, path.deep_view(), indices@) == parent[j]);
            }
            current_index = current_index / 2;
            level = level + 1;
        }
        proof {
            assert(self.levels()[level as int].len() == 1);
            assert(current_index == 0);
            assert(self.levels()[level as int] == self.levels().last());
        }
        MerkleProof { leaf, path, indices }
    }

    /// Verifies a proof against this tree's root.
    pub fn verify(&self, merkle_proof: &MerkleProof) -> (r: bool)
        requires
            self.wf(),
        ensures
            r == proof_ok(merkle_proof.leaf@, merkle_proof.path.deep_view(),
                merkle_proof.indices@, self.spec_root()),
    {
        let root = self.root();
        verify_merkle_proof(&merkle_proof.leaf, &merkle_proof.path, &merkle_proof.indices, &root)
    }
}

proof fn lemma_wf_root_from(t: MerkleTree, l: int)
    requires
        t.wf(),
        0 <= l < t.levels().len(),
    ensures
        merkle_root_of(t.levels()[l]) == t.spec_root(),
    decreases t.levels().len() - l,
{
    if l == t.levels().len() - 1 {
        assert(t.levels()[l].len() == 1);
        assert(t.levels()[l] == t.levels().last());
    } else {
        assert(t.levels()[l].len() >= 2);
        assert(is_parent_level(t.levels()[l], t.levels()[l + 1]));
        lemma_parent_root(t.levels()[l], t.levels()[l + 1]);
        lemma_wf_root_from(t, l + 1);
    }
}

/// A well-formed tree's root is the pure function of its leaves.
pub proof fn lemma_wf_root(t: MerkleTree)
    requires
        t.wf(),
    ensures
        t.spec_root() == merkle_root_of(t.spec_leaves()),
{
    lemma_wf_root_from(t, 0);
}

/// Verifies a Merkle proof against an expected root, with no access to
/// the tree: replays the leaf through the recorded siblings and compares
/// the result to the root.
pub fn verify_merkle_proof(leaf: &Vec<u8>, path: &Vec<Vec<u8>>, indices: &Vec<u8>,
    expected_root: &Vec<u8>) -> (r: bool)
    ensures
        r == proof_ok(leaf@, path.deep_view(), indices@, expected_root@),
{
    if path.len() != indices.len() {
        return false;
    }
    let mut current = copy_bytes(leaf);
    let len = path.len();
    let mut i: usize = 0;
    proof {
        assert(path.deep_view().take(0) =~= Seq::<Seq<u8>>::empty());
        assert(indices@.take(0) =~= Seq::<u8>::empty());
    }
    while i < len
        invariant
            len == path@.len(),
            len == indices@.len(),
            i <= len,
            current@ == fold_path(leaf@, path.deep_view().take(i as int), indices@.take(i as int)),
        decreases len - i,
    {
        let sib = &path[i];
        proof {
            assert(sib@ == path.deep_view()[i as int]);
        }
        let next = if indices[i] == 0 {
            hash_concat(&current, sib)
        } else {
            hash_concat(sib, &current)
        };
        proof {
            lemma_fold_path_snoc(leaf@, path.deep_view().take(i as int), indices@.take(i as int),
                path.deep_view()[i as int], indices@[i as int]);
            assert(path.deep_view().take(i + 1) =~= path.deep_view().take(i as int).push(
                path.deep_view()[i as int]));
            assert(indices@.take(i + 1) =~= indices@.take(i as int).push(indices@[i as int]));
            assert(next@ == step(fold_path(leaf@, path.deep_view().take(i as int), indices@.take(
                i as int)), path.deep_view()[i as int], indices@[i as int]));
        }
        current = next;
        i = i + 1;
    }
    proof {
        assert(path.deep_view().take(len as int) =~= path.deep_view());
        assert(indices@.take(len as int) =~= indices@);
    }
    bytes_eq(&current, expected_root)
}

} // verus!
