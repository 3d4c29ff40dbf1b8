//! A binary Merkle tree over an ordered list of 32-byte leaf hashes.
//!
//! The bottom row is padded with an all-zero 32-byte hash to the smallest
//! power of two in 1..=4096 that holds the supplied leaves; each row above
//! pairs adjacent nodes. A pair is combined by hashing the lexicographically
//! smaller child followed by the larger with Keccak-256, so a parent's hash
//! is independent of the order of its two children.

use vstd::prelude::*;
use vstd::slice::slice_to_vec;
use crate::codec::{push_zeros, zero_bytes};

verus! {

/// Why a tree could not be built.
#[derive(Clone, Copy, Debug, PartialEq, Eq, Structural)]
pub enum MerkleError {
    /// More leaves were supplied than the largest capacity, 4096.
    CapacityExceeded,
}

/// The largest number of leaves a tree can hold.
pub const MAX_LEAVES: usize = 4096;

/// Two to the power `e`.
pub open spec fn pow2(e: nat) -> nat
    decreases e,
{
    if e == 0 {
        1
    } else {
        2 * pow2((e - 1) as nat)
    }
}

/// The number of rows of a tree over `n` leaves: the smallest `h >= 1` with
/// `pow2(h - 1) >= n`.
pub open spec fn spec_height(n: nat) -> nat
    decreases n,
{
    if n <= 1 {
        1
    } else {
        1 + spec_height(((n + 1) / 2) as nat)
    }
}

/// Powers of two never shrink as the exponent grows.
proof fn lemma_pow2_le(a: nat, b: nat)
    requires
        a <= b,
    ensures
        pow2(a) <= pow2(b),
    decreases b,
{
    if a < b {
        lemma_pow2_le(a, (b - 1) as nat);
    }
}

/// A power of two is at least one.
proof fn lemma_pow2_pos(e: nat)
    ensures
        pow2(e) >= 1,
    decreases e,
{
    if e > 0 {
        lemma_pow2_pos((e - 1) as nat);
    }
}

/// Law: the tree height of `n` leaves is the least `h >= 1` whose bottom
/// row of `pow2(h - 1)` slots holds all `n` leaves.
pub proof fn lemma_spec_height_minimal(n: nat)
    ensures
        1 <= spec_height(n),
        pow2((spec_height(n) - 1) as nat) >= n,
        n >= 2 ==> pow2((spec_height(n) - 2) as nat) < n,
    decreases n,
{
    if n >= 2 {
        let m = ((n + 1) / 2) as nat;
        assert(2 * m >= n);
        assert(2 * m <= n + 1);
        assert(m < n);
        lemma_spec_height_minimal(m);
        let hm = spec_height(m);
        assert(pow2((spec_height(n) - 1) as nat) == 2 * pow2((hm - 1) as nat));
        if m >= 2 {
            assert(pow2((hm - 2) as nat) < m);
            assert(pow2((hm - 1) as nat) == 2 * pow2((hm - 2) as nat));
            assert(2 * pow2((hm - 2) as nat) <= 2 * (m - 1));
        } else {
            assert(hm == 1);
            assert(pow2((spec_height(n) - 2) as nat) == 1);
        }
    }
}

/// A height that satisfies the minimality characterization is the height.
proof fn lemma_spec_height_unique(n: nat, h: nat)
    requires
        1 <= h,
        pow2((h - 1) as nat) >= n,
        h >= 2 ==> pow2((h - 2) as nat) < n,
    ensures
        h == spec_height(n),
{
    lemma_spec_height_minimal(n);
    let sh = spec_height(n);
    if h < sh {
        assert(sh >= 2);
        assert(n >= 2) by {
            if n <= 1 {
                assert(spec_height(n) == 1);
            }
        }
        lemma_pow2_le((h - 1) as nat, (sh - 2) as nat);
        assert(false);
    } else if h > sh {
        assert(h >= 2);
        if n >= 2 {
            lemma_pow2_le((sh - 1) as nat, (h - 2) as nat);
            assert(false);
        } else {
            lemma_pow2_pos((h - 2) as nat);
            assert(false);
        }
    }
}

/// What the Keccak-256 digest of two concatenated byte strings is.
pub uninterp spec fn keccak_concat(x: Seq<u8>, y: Seq<u8>) -> Seq<u8>;

/// Relies on `solana_program::keccak::hashv`: it returns the 32-byte
/// Keccak-256 digest of the concatenation of the given slices, a function
/// of those bytes alone.
#[verifier::external_body]
fn keccak_pair(x: &[u8], y: &[u8]) -> (r: Vec<u8>)
    ensures
        r@ == keccak_concat(x@, y@),
        r@.len() == 32,
{
    solana_program::keccak::hashv(&[x, y]).to_bytes().to_vec()
}

/// Strict lexicographic order on byte strings, by unsigned byte comparison;
/// a proper prefix comes first.
pub open spec fn lex_lt(x: Seq<u8>, y: Seq<u8>) -> bool
    decreases x.len(),
{
    if y.len() == 0 {
        false
    } else if x.len() == 0 {
        true
    } else if x[0] < y[0] {
        true
    } else if x[0] > y[0] {
        false
    } else {
        lex_lt(x.drop_first(), y.drop_first())
    }
}

/// The combined hash of two sibling hashes: the lexicographically smaller
/// child is hashed first.
pub open spec fn spec_hash_pair(x: Seq<u8>, y: Seq<u8>) -> Seq<u8> {
    if lex_lt(x, y) {
        keccak_concat(x, y)
    } else {
        keccak_concat(y, x)
    }
}

/// The lexicographic order is asymmetric.
proof fn lemma_lex_lt_asymmetric(x: Seq<u8>, y: Seq<u8>)
    ensures
        !(lex_lt(x, y) && lex_lt(y, x)),
    decreases x.len(),
{
    if x.len() > 0 && y.len() > 0 && x[0] == y[0] {
        lemma_lex_lt_asymmetric(x.drop_first(), y.drop_first());
    }
}

/// The lexicographic order is total: two byte strings are ordered one way
/// or the other, or they are equal.
proof fn lemma_lex_lt_total(x: Seq<u8>, y: Seq<u8>)
    ensures
        lex_lt(x, y) || lex_lt(y, x) || x == y,
    decreases x.len(),
{
    if x.len() > 0 && y.len() > 0 && x[0] == y[0] {
        lemma_lex_lt_total(x.drop_first(), y.drop_first());
        if !lex_lt(x, y) && !lex_lt(y, x) {
            assert(x.drop_first() == y.drop_first());
            assert(x.len() == y.len());
            assert forall|i: int| 0 <= i < x.len() implies x[i] == y[i] by {
                if i > 0 {
                    assert(x.drop_first()[i - 1] == x[i]);
                    assert(y.drop_first()[i - 1] == y[i]);
                }
            }
            assert(x =~= y);
        }
    }
}

/// Law: the pair hash is independent of the order of its two children.
pub proof fn lemma_hash_pair_symmetric(x: Seq<u8>, y: Seq<u8>)
    ensures
        spec_hash_pair(x, y) == spec_hash_pair(y, x),
{
    lemma_lex_lt_asymmetric(x, y);
    lemma_lex_lt_total(x, y);
}

/// Whether `x` comes strictly before `y` in lexicographic byte order.
fn lex_less(x: &Vec<u8>, y: &Vec<u8>) -> (r: bool)
    ensures
        r == lex_lt(x@, y@),
{
    let xlen = x.len();
    let ylen = y.len();
    let min = if xlen < ylen {
        xlen
    } else {
        ylen
    };
    proof {
        assert(x@.skip(0) =~= x@);
        assert(y@.skip(0) =~= y@);
    }
    let mut i: usize = 0;
    while i < min
        invariant
            i <= min,
            min <= xlen,
            min <= ylen,
            xlen == x@.len(),
            ylen == y@.len(),
            min == if xlen < ylen { xlen } else { ylen },
            lex_lt(x@, y@) == lex_lt(x@.skip(i as int), y@.skip(i as int)),
        decreases min - i,
    {
        let ghost xs = x@.skip(i as int);
        let ghost ys = y@.skip(i as int);
        proof {
            assert(xs[0] == x@[i as int]);
            assert(ys[0] == y@[i as int]);
        }
        if x[i] < y[i] {
            return true;
        }
        if x[i] > y[i] {
            return false;
        }
        proof {
            assert(xs.drop_first() =~= x@.skip(i as int + 1));
            assert(ys.drop_first() =~= y@.skip(i as int + 1));
        }
        i = i + 1;
    }
    proof {
        let xs = x@.skip(min as int);
        let ys = y@.skip(min as int);
        assert(xs.len() == xlen - min);
        assert(ys.len() == ylen - min);
    }
    xlen < ylen
}

/// Combines two sibling hashes, hashing the lexicographically smaller one
/// first.
pub fn hash_pair(x: &Vec<u8>, y: &Vec<u8>) -> (r: Vec<u8>)
    ensures
        r@ == spec_hash_pair(x@, y@),
        r@.len() == 32,
{
    if lex_less(x, y) {
        keccak_pair(x.as_slice(), y.as_slice())
    } else {
        keccak_pair(y.as_slice(), x.as_slice())
    }
}

/// The byte sequences of a list of leaf hashes.
pub open spec fn leaf_views(hashes: Seq<Vec<u8>>) -> Seq<Seq<u8>> {
    Seq::new(hashes.len(), |i: int| hashes[i]@)
}

/// The bottom row: the leaves, padded to `pow2(height - 1)` entries with
/// the all-zero 32-byte hash.
pub open spec fn spec_padded_leaves(leaves: Seq<Seq<u8>>) -> Seq<Seq<u8>> {
    Seq::new(
        pow2((spec_height(leaves.len()) - 1) as nat),
        |j: int|
            if j < leaves.len() {
                leaves[j]
            } else {
                zero_bytes(32)
            },
    )
}

/// The row above a given row: each adjacent pair combined into one hash.
pub open spec fn spec_parent_row(row: Seq<Seq<u8>>) -> Seq<Seq<u8>> {
    Seq::new((row.len() / 2) as nat, |j: int| spec_hash_pair(row[2 * j], row[2 * j + 1]))
}

/// The hashes of row `r` of the tree over `leaves` (row 0 is the bottom).
pub open spec fn spec_row(leaves: Seq<Seq<u8>>, r: nat) -> Seq<Seq<u8>>
    decreases r,
{
    if r == 0 {
        spec_padded_leaves(leaves)
    } else {
        spec_parent_row(spec_row(leaves, (r - 1) as nat))
    }
}

/// The root hash of the tree over `leaves`.
pub open spec fn spec_merkle_root(leaves: Seq<Seq<u8>>) -> Seq<u8> {
    spec_row(leaves, (spec_height(leaves.len()) - 1) as nat)[0]
}

/// Row `r` holds `pow2(height - 1 - r)` hashes.
pub proof fn lemma_row_len(leaves: Seq<Seq<u8>>, r: nat)
    requires
        r <= spec_height(leaves.len()) - 1,
    ensures
        spec_row(leaves, r).len() == pow2((spec_height(leaves.len()) - 1 - r) as nat),
    decreases r,
{
    if r > 0 {
        lemma_row_len(leaves, (r - 1) as nat);
        let k = (spec_height(leaves.len()) - 1 - (r - 1)) as nat;
        assert(pow2(k) == 2 * pow2((k - 1) as nat));
        assert((2 * pow2((k - 1) as nat)) / 2 == pow2((k - 1) as nat));
    }
}

/// Law: positions of the bottom row beyond the supplied leaves hold the
/// all-zero 32-byte hash.
pub proof fn lemma_padding_zero(leaves: Seq<Seq<u8>>, j: int)
    requires
        leaves.len() <= j < pow2((spec_height(leaves.len()) - 1) as nat),
    ensures
        spec_row(leaves, 0)[j] == zero_bytes(32),
{
}

/// One node of the tree: its row (depth, 0 = leaves), its position within
/// that row, and its 32-byte hash.
#[derive(Debug)]
pub struct MerkleNode {
    /// The row the node stands in; 0 is the leaf row.
    pub row: u64,
    /// The node's zero-based position within its row.
    pub index: u64,
    /// The node's 32-byte hash.
    pub hash: Vec<u8>,
}

/// A binary Merkle tree: the number of rows, the full row-by-row node
/// table, and the root node. Immutable once built.
#[derive(Debug)]
pub struct MerkleTree {
    /// The number of rows; leaves stand at row 0, the root at row
    /// `height - 1`.
    pub height: usize,
    /// All nodes, row by row from the leaves up.
    pub nodes: Vec<Vec<MerkleNode>>,
    /// The single node of the last row.
    pub root: MerkleNode,
}

impl MerkleTree {
    /// The tree is exactly the hash table that `leaves` determines: the
    /// minimal height, the padded bottom row, each row above pairing the
    /// row below, and the root the single hash of the last row.
    pub open spec fn built_from(self, leaves: Seq<Seq<u8>>) -> bool {
        &&& self.height == spec_height(leaves.len())
        &&& self.nodes@.len() == self.height
        &&& forall|r: int|
            0 <= r < self.height ==> (#[trigger] self.nodes@[r])@.len() == spec_row(
                leaves,
                r as nat,
            ).len()
        &&& forall|r: int, j: int|
            0 <= r < self.height && 0 <= j < self.nodes@[r]@.len() ==> {
                &&& (#[trigger] self.nodes@[r]@[j]).row == r
                &&& self.nodes@[r]@[j].index == j
                &&& self.nodes@[r]@[j].hash@ == spec_row(leaves, r as nat)[j]
            }
        &&& self.root.row == self.height - 1
        &&& self.root.index == 0
        &&& self.root.hash@ == spec_merkle_root(leaves)
    }

    /// Builds the tree over the given leaf hashes. An empty list is
    /// permitted and yields a single padded all-zero leaf that is both leaf
    /// and root. More than 4096 leaves is a capacity error; nothing is
    /// truncated.
    pub fn new(hashes: Vec<Vec<u8>>) -> (r: Result<MerkleTree, MerkleError>)
        requires
            forall|i: int| 0 <= i < hashes@.len() ==> (#[trigger] hashes@[i])@.len() == 32,
        ensures
            match r {
                Ok(t) => hashes@.len() <= 4096 && t.built_from(leaf_views(hashes@)),
                Err(e) => hashes@.len() > 4096 && e == MerkleError::CapacityExceeded,
            },
    {
        let ghost leaves = leaf_views(hashes@);
        let n = hashes.len();
        if n > MAX_LEAVES {
            return Err(MerkleError::CapacityExceeded);
        }
        let mut height: usize = 1;
        let mut cap: usize = 1;
        while cap < n
            invariant
                1 <= height <= 13,
                1 <= cap,
                cap == pow2((height - 1) as nat),
                n <= 4096,
                height >= 2 ==> pow2((height - 2) as nat) < n,
            decreases 13 - height,
        {
            proof {
                assert(pow2(12) == 4096) by {
                    reveal_with_fuel(pow2, 13);
                }
                if height >= 13 {
                    lemma_pow2_le(12, (height - 1) as nat);
                    assert(false);
                }
            }
            height = height + 1;
            cap = cap * 2;
        }
        proof {
            lemma_spec_height_unique(n as nat, height as nat);
            assert(leaves.len() == n);
            assert(spec_row(leaves, 0).len() == cap);
            assert(pow2(12) == 4096) by {
                reveal_with_fuel(pow2, 13);
            }
            lemma_pow2_le((height - 1) as nat, 12);
        }
        let mut row0: Vec<MerkleNode> = Vec::new();
        let mut i: usize = 0;
        while i < cap
            invariant
                i <= cap,
                cap <= 4096,
                row0@.len() == i,
                n == hashes@.len(),
                n <= cap,
                leaves == leaf_views(hashes@),
                forall|t: int| 0 <= t < hashes@.len() ==> (#[trigger] hashes@[t])@.len() == 32,
                height == spec_height(leaves.len()),
                cap == pow2((height - 1) as nat),
                spec_row(leaves, 0).len() == cap,
                forall|j: int|
                    0 <= j < i ==> {
                        &&& (#[trigger] row0@[j]).row == 0
                        &&& row0@[j].index == j
                        &&& row0@[j].hash@ == spec_row(leaves, 0)[j]
                    },
            decreases cap - i,
        {
            let node_hash: Vec<u8> = if i < n {
                slice_to_vec(hashes[i].as_slice())
            } else {
                let mut z: Vec<u8> = Vec::new();
                push_zeros(&mut z, 32);
                z
            };
            row0.push(MerkleNode { row: 0, index: i as u64, hash: node_hash });
            i = i + 1;
        }
        let mut nodes: Vec<Vec<MerkleNode>> = Vec::new();
        nodes.push(row0);
        let mut r: usize = 1;
        while r < height
            invariant
                1 <= r <= height,
                height <= 13,
                nodes@.len() == r,
                leaves == leaf_views(hashes@),
                height == spec_height(leaves.len()),
                forall|q: int|
                    0 <= q < r ==> (#[trigger] nodes@[q])@.len() == spec_row(
                        leaves,
                        q as nat,
                    ).len(),
                forall|q: int, j: int|
                    0 <= q < r && 0 <= j < nodes@[q]@.len() ==> {
                        &&& (#[trigger] nodes@[q]@[j]).row == q
                        &&& nodes@[q]@[j].index == j
                        &&& nodes@[q]@[j].hash@ == spec_row(leaves, q as nat)[j]
                    },
            decreases height - r,
        {
            let prev_len = nodes[r - 1].len();
            let half = prev_len / 2;
            proof {
                assert(spec_row(leaves, r as nat).len() == half);
            }
            let mut new_row: Vec<MerkleNode> = Vec::new();
            let mut k: usize = 0;
            while k < half
                invariant
                    k <= half,
                    1 <= r < height,
                    height <= 13,
                    nodes@.len() == r,
                    leaves == leaf_views(hashes@),
                    height == spec_height(leaves.len()),
                    prev_len == nodes@[r - 1]@.len(),
                    prev_len == spec_row(leaves, (r - 1) as nat).len(),
                    half == prev_len / 2,
                    new_row@.len() == k,
                    spec_row(leaves, r as nat).len() == half,
                    forall|q: int, j: int|
                        0 <= q < r && 0 <= j < nodes@[q]@.len() ==> {
                            &&& (#[trigger] nodes@[q]@[j]).row == q
                            &&& nodes@[q]@[j].index == j
                            &&& nodes@[q]@[j].hash@ == spec_row(leaves, q as nat)[j]
                        },
                    forall|j: int|
                        0 <= j < k ==> {
                            &&& (#[trigger] new_row@[j]).row == r
                            &&& new_row@[j].index == j
                            &&& new_row@[j].hash@ == spec_row(leaves, r as nat)[j]
                        },
                decreases half - k,
            {
                let combined = hash_pair(&nodes[r - 1][2 * k].hash, &nodes[r - 1][2 * k + 1].hash);
                proof {
                    assert(spec_row(leaves, r as nat)[k as int] == spec_hash_pair(
                        spec_row(leaves, (r - 1) as nat)[2 * k],
                        spec_row(leaves, (r - 1) as nat)[2 * k + 1],
                    ));
                }
                new_row.push(MerkleNode { row: r as u64, index: k as u64, hash: combined });
                k = k + 1;
            }
            nodes.push(new_row);
            r = r + 1;
        }
        proof {
            lemma_row_len(leaves, (height - 1) as nat);
            assert(pow2(0) == 1);
        }
        let root_hash = slice_to_vec(nodes[height - 1][0].hash.as_slice());
        let root = MerkleNode { row: (height - 1) as u64, index: 0, hash: root_hash };
        let tree = MerkleTree { height, nodes, root };
        Ok(tree)
    }
}

/// The parent row of a reversed row is the reversed parent row, since the
/// pair hash ignores the order of its two children.
proof fn lemma_parent_row_reverse(s: Seq<Seq<u8>>)
    requires
        s.len() % 2 == 0,
    ensures
        spec_parent_row(s.reverse()) == spec_parent_row(s).reverse(),
{
    let l = s.len() as int;
    assert(2 * (l / 2) == l);
    if l == 0 {
        assert(spec_parent_row(s.reverse()) =~= spec_parent_row(s).reverse());
    } else {
        assert(s.reverse().len() == l);
        assert forall|j: int| 0 <= j < l / 2 implies spec_parent_row(s.reverse())[j]
            == spec_parent_row(s).reverse()[j] by {
            assert(s.reverse()[2 * j] == s[l - 1 - 2 * j]);
            assert(s.reverse()[2 * j + 1] == s[l - 2 - 2 * j]);
            lemma_hash_pair_symmetric(s[l - 1 - 2 * j], s[l - 2 - 2 * j]);
            assert(spec_parent_row(s).reverse()[j] == spec_parent_row(s)[l / 2 - 1 - j]);
            assert(2 * (l / 2 - 1 - j) == l - 2 - 2 * j);
        }
        assert(spec_parent_row(s.reverse()) =~= spec_parent_row(s).reverse());
    }
}

/// When the bottom row is full, row `r` over the reversed leaves is the
/// reverse of row `r` over the leaves.
proof fn lemma_row_reverse(leaves: Seq<Seq<u8>>, r: nat)
    requires
        leaves.len() == pow2((spec_height(leaves.len()) - 1) as nat),
        r <= spec_height(leaves.len()) - 1,
    ensures
        spec_row(leaves.reverse(), r) == spec_row(leaves, r).reverse(),
    decreases r,
{
    let h = spec_height(leaves.len());
    lemma_pow2_pos((h - 1) as nat);
    assert(leaves.len() >= 1);
    assert(leaves.reverse().len() == leaves.len());
    if r == 0 {
        assert(spec_padded_leaves(leaves) =~= leaves);
        assert(spec_padded_leaves(leaves.reverse()) =~= leaves.reverse());
    } else {
        lemma_row_reverse(leaves, (r - 1) as nat);
        lemma_row_len(leaves, (r - 1) as nat);
        let k = (h - 1 - (r - 1)) as nat;
        assert(pow2(k) == 2 * pow2((k - 1) as nat));
        assert(spec_row(leaves, (r - 1) as nat).len() % 2 == 0);
        lemma_parent_row_reverse(spec_row(leaves, (r - 1) as nat));
        assert(spec_row(leaves.reverse(), (r - 1) as nat).len() == spec_row(
            leaves,
            (r - 1) as nat,
        ).len());
    }
}

/// Law: when the leaf count is exactly a power of two, reversing the leaf
/// order leaves the root hash unchanged.
pub proof fn lemma_merkle_root_reverse(leaves: Seq<Seq<u8>>)
    requires
        leaves.len() == pow2((spec_height(leaves.len()) - 1) as nat),
    ensures
        spec_merkle_root(leaves.reverse()) == spec_merkle_root(leaves),
{
    let h = spec_height(leaves.len());
    lemma_pow2_pos((h - 1) as nat);
    assert(leaves.reverse().len() == leaves.len());
    lemma_row_reverse(leaves, (h - 1) as nat);
    lemma_row_len(leaves, (h - 1) as nat);
    let last = spec_row(leaves, (h - 1) as nat);
    assert(last.len() == 1);
    assert(last.reverse()[0] == last[0]);
}

/// Law: a tree of two leaves has the same root whichever order the two
/// leaves come in.
pub proof fn lemma_two_leaf_root_swap(a: Seq<u8>, b: Seq<u8>)
    ensures
        spec_merkle_root(seq![a, b]) == spec_merkle_root(seq![b, a]),
{
    let s = seq![a, b];
    assert(s.reverse() =~= seq![b, a]);
    assert(spec_height(2) == 2) by {
        reveal_with_fuel(spec_height, 3);
    }
    assert(pow2(1) == 2) by {
        reveal_with_fuel(pow2, 3);
    }
    lemma_merkle_root_reverse(s);
}

} // verus!
