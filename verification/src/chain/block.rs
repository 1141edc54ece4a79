//! Sealed blocks: the Merkle commitment over the payload, the canonical
//! block-hash preimage, and the proof-of-work nonce search.

use vstd::prelude::*;

use crate::config;
use crate::crypto::{sha256_hex, sha256_hex_of};
use crate::text::{spec_dec_u64, spec_zeros, push_dec_u64, zeros};
use crate::clock::now_epoch_seconds;

verus! {

/// An immutable, sealed unit of the chain. `hash` is computed once at seal
/// time over the other header fields and must equal what an independent
/// recomputation of `spec_block_hash` produces.
pub struct Block {
    pub index: u64,
    pub timestamp: u64,
    pub previous_hash: String,
    pub merkle_root: String,
    pub hash: String,
    pub nonce: u64,
    pub data: Vec<String>,
    pub miner_address: String,
}

/// The characters of each string in `s`, in order.
pub open spec fn seq_views(s: Seq<String>) -> Seq<Seq<char>> {
    s.map_values(|x: String| x@)
}

/// Root digest of an empty payload: 64 zero hex characters.
pub open spec fn spec_merkle_sentinel() -> Seq<char> {
    spec_zeros(64)
}

/// The leaf digests: each item hashed on its own, order preserved.
pub open spec fn spec_leaf_hashes(items: Seq<Seq<char>>) -> Seq<Seq<char>> {
    items.map_values(|s: Seq<char>| sha256_hex_of(s))
}

/// Duplicates the last digest when the count is odd, making it even.
pub open spec fn spec_merkle_pad(h: Seq<Seq<char>>) -> Seq<Seq<char>> {
    if h.len() % 2 == 1 {
        h.push(h.last())
    } else {
        h
    }
}

/// One reduction round over an even level: consecutive digests are paired
/// left to right and each pair's hex strings are concatenated and hashed.
pub open spec fn spec_merkle_level(h: Seq<Seq<char>>) -> Seq<Seq<char>> {
    Seq::new(h.len() / 2, |i: int| sha256_hex_of(h[2 * i] + h[2 * i + 1]))
}

/// Repeated pairwise reduction of a non-empty level down to a single digest.
pub open spec fn spec_merkle_reduce(h: Seq<Seq<char>>) -> Seq<char>
    decreases h.len(),
{
    if h.len() <= 1 {
        if h.len() == 1 {
            h[0]
        } else {
            spec_merkle_sentinel()
        }
    } else {
        spec_merkle_reduce(spec_merkle_level(spec_merkle_pad(h)))
    }
}

/// The Merkle root binding an ordered list of payload items: the sentinel for
/// an empty list, otherwise the pairwise reduction of the leaf digests.
pub open spec fn spec_merkle_root(items: Seq<Seq<char>>) -> Seq<char> {
    if items.len() == 0 {
        spec_merkle_sentinel()
    } else {
        spec_merkle_reduce(spec_leaf_hashes(items))
    }
}

/// Computing the Merkle root twice over the same ordered items yields the
/// same digest: the root is a function of the item sequence alone.
pub proof fn lemma_merkle_root_deterministic(a: Seq<Seq<char>>, b: Seq<Seq<char>>)
    requires
        a == b,
    ensures
        spec_merkle_root(a) == spec_merkle_root(b),
{
}

/// The canonical hash preimage: decimal for the integers, the digest and
/// identity strings as they stand, concatenated in fixed field order with no
/// separator.
pub open spec fn spec_block_preimage(
    index: u64,
    timestamp: u64,
    previous_hash: Seq<char>,
    merkle_root: Seq<char>,
    nonce: u64,
    miner_address: Seq<char>,
) -> Seq<char> {
    spec_dec_u64(index as nat) + spec_dec_u64(timestamp as nat) + previous_hash + merkle_root
        + spec_dec_u64(nonce as nat) + miner_address
}

/// The block hash: the hex SHA-256 digest of the canonical preimage.
pub open spec fn spec_block_hash(
    index: u64,
    timestamp: u64,
    previous_hash: Seq<char>,
    merkle_root: Seq<char>,
    nonce: u64,
    miner_address: Seq<char>,
) -> Seq<char> {
    sha256_hex_of(
        spec_block_preimage(index, timestamp, previous_hash, merkle_root, nonce, miner_address),
    )
}

/// The difficulty predicate: at least `d` leading zero hex characters.
pub open spec fn spec_meets_difficulty(h: Seq<char>, d: nat) -> bool {
    d <= h.len() && forall|i: int| 0 <= i < d ==> h[i] == '0'
}

/// No nonce in the `u64` space yields a hash meeting the difficulty for
/// these header fields.
pub open spec fn spec_no_nonce_meets(
    index: u64,
    timestamp: u64,
    previous_hash: Seq<char>,
    merkle_root: Seq<char>,
    miner_address: Seq<char>,
    difficulty: nat,
) -> bool {
    forall|m: u64| !spec_meets_difficulty(
        #[trigger] spec_block_hash(index, timestamp, previous_hash, merkle_root, m, miner_address),
        difficulty,
    )
}

/// Whether `hash` has at least `difficulty` leading zero characters.
pub(crate) fn meets_difficulty(hash: &str, difficulty: usize) -> (r: bool)
    ensures
        r == spec_meets_difficulty(hash@, difficulty as nat),
{
    let len = hash.unicode_len();
    if difficulty > len {
        return false;
    }
    let mut i: usize = 0;
    while i < difficulty
        invariant
            difficulty <= len == hash@.len(),
            i <= difficulty,
            forall|k: int| 0 <= k < i ==> hash@[k] == '0',
        decreases difficulty - i,
    {
        if hash.get_char(i) != '0' {
            return false;
        }
        i = i + 1;
    }
    true
}

impl Block {
    /// The Merkle root of `data`, as the sealing and validation logic
    /// computes it: the sentinel for an empty payload, otherwise pairwise
    /// hex-string reduction of the leaf digests.
    pub fn calculate_merkle_root(data: &[String]) -> (r: String)
        ensures
            r@ == spec_merkle_root(seq_views(data@)),
    {
        if data.len() == 0 {
            let r = zeros(64);
            proof {
                assert(r@ =~= spec_merkle_sentinel());
            }
            return r;
        }

        let ghost root0 = spec_merkle_root(seq_views(data@));

        let mut hashes: Vec<String> = Vec::new();
        let n = data.len();
        let mut i: usize = 0;
        while i < n
            invariant
                n == data@.len(),
                i <= n,
                hashes@.len() == i,
                forall|j: int| 0 <= j < i ==> hashes@[j]@ == sha256_hex_of(data@[j]@),
            decreases n - i,
        {
            let leaf = sha256_hex(data[i].as_str());
            hashes.push(leaf);
            i = i + 1;
        }
        proof {
            assert(seq_views(hashes@) =~= spec_leaf_hashes(seq_views(data@)));
            assert(spec_merkle_reduce(seq_views(hashes@)) == root0);
        }

        while hashes.len() > 1
            invariant
                hashes@.len() >= 1,
                spec_merkle_reduce(seq_views(hashes@)) == root0,
            decreases hashes@.len(),
        {
            let ghost before = seq_views(hashes@);

            if hashes.len() % 2 != 0 {
                let last = hashes[hashes.len() - 1].clone();
                hashes.push(last);
            }
            proof {
                assert(seq_views(hashes@) =~= spec_merkle_pad(before));
            }
            let ghost padded = seq_views(hashes@);

            let mut new_level: Vec<String> = Vec::new();
            let hlen = hashes.len();
            let pairs = hlen / 2;
            let mut j: usize = 0;
            while j < pairs
                invariant
                    hlen == hashes@.len(),
                    pairs == hlen / 2,
                    hlen % 2 == 0,
                    padded == seq_views(hashes@),
                    j <= pairs,
                    new_level@.len() == j,
                    forall|k: int| 0 <= k < j ==> new_level@[k]@ == sha256_hex_of(
                        padded[2 * k] + padded[2 * k + 1],
                    ),
                decreases pairs - j,
            {
                proof {
                    assert(hlen == 2 * pairs);
                }
                let mut combined = hashes[2 * j].clone();
                combined.append(hashes[2 * j + 1].as_str());
                let parent = sha256_hex(combined.as_str());
                new_level.push(parent);
                j = j + 1;
            }
            proof {
                assert(seq_views(new_level@) =~= spec_merkle_level(padded));
                assert(spec_merkle_reduce(seq_views(new_level@)) == root0);
                assert(seq_views(new_level@).len() >= 1);
            }
            hashes = new_level;
        }

        let r = hashes[0].clone();
        proof {
            assert(spec_merkle_reduce(seq_views(hashes@)) == seq_views(hashes@)[0]);
        }
        r
    }

    /// The hash a block with these header fields must store: the digest of
    /// the canonical preimage.
    pub fn calculate_hash(
        index: u64,
        timestamp: u64,
        previous_hash: &str,
        merkle_root: &str,
        nonce: u64,
        miner_address: &str,
    ) -> (r: String)
        ensures
            r@ == spec_block_hash(
                index,
                timestamp,
                previous_hash@,
                merkle_root@,
                nonce,
                miner_address@,
            ),
    {
        let mut input = String::new();
        push_dec_u64(&mut input, index);
        push_dec_u64(&mut input, timestamp);
        input.append(previous_hash);
        input.append(merkle_root);
        push_dec_u64(&mut input, nonce);
        input.append(miner_address);
        proof {
            assert(input@ =~= spec_block_preimage(
                index,
                timestamp,
                previous_hash@,
                merkle_root@,
                nonce,
                miner_address@,
            ));
        }
        sha256_hex(input.as_str())
    }

    /// Exhaustive proof-of-work search over the nonce space, a pure function
    /// of the header fields: returns the smallest nonce whose hash meets the
    /// difficulty, with that hash, or nothing when no nonce in the `u64`
    /// space does.
    pub fn find_nonce(
        index: u64,
        timestamp: u64,
        previous_hash: &str,
        merkle_root: &str,
        miner_address: &str,
        difficulty: usize,
    ) -> (r: Option<(u64, String)>)
        ensures
            r matches Some(p) ==> {
                &&& p.1@ == spec_block_hash(
                    index,
                    timestamp,
                    previous_hash@,
                    merkle_root@,
                    p.0,
                    miner_address@,
                )
                &&& spec_meets_difficulty(p.1@, difficulty as nat)
                &&& forall|m: u64| m < p.0 ==> !spec_meets_difficulty(
                    #[trigger] spec_block_hash(
                        index,
                        timestamp,
                        previous_hash@,
                        merkle_root@,
                        m,
                        miner_address@,
                    ),
                    difficulty as nat,
                )
            },
            r is None ==> spec_no_nonce_meets(
                index,
                timestamp,
                previous_hash@,
                merkle_root@,
                miner_address@,
                difficulty as nat,
            ),
    {
        let mut nonce: u64 = 0;
        loop
            invariant
                forall|m: u64| m < nonce ==> !spec_meets_difficulty(
                    #[trigger] spec_block_hash(
                        index,
                        timestamp,
                        previous_hash@,
                        merkle_root@,
                        m,
                        miner_address@,
                    ),
                    difficulty as nat,
                ),
            decreases u64::MAX - nonce,
        {
            let hash = Self::calculate_hash(
                index,
                timestamp,
                previous_hash,
                merkle_root,
                nonce,
                miner_address,
            );
            if meets_difficulty(hash.as_str(), difficulty) {
                return Some((nonce, hash));
            }
            if nonce == u64::MAX {
                return None;
            }
            nonce = nonce + 1;
        }
    }

    /// Seals a new block: captures one timestamp, commits to `data` through
    /// the Merkle root, and searches for a nonce meeting `difficulty`.
    /// Returns nothing only when no nonce in the `u64` space satisfies the
    /// difficulty for the captured timestamp.
    pub fn mine_block(
        index: u64,
        previous_hash: String,
        data: Vec<String>,
        miner_address: String,
        difficulty: usize,
    ) -> (r: Option<Block>)
        ensures
            r matches Some(b) ==> {
                &&& b.index == index
                &&& b.previous_hash == previous_hash
                &&& b.data == data
                &&& b.miner_address == miner_address
                &&& b.merkle_root@ == spec_merkle_root(seq_views(data@))
                &&& b.hash@ == spec_block_hash(
                    b.index,
                    b.timestamp,
                    b.previous_hash@,
                    b.merkle_root@,
                    b.nonce,
                    b.miner_address@,
                )
                &&& spec_meets_difficulty(b.hash@, difficulty as nat)
                &&& forall|m: u64| m < b.nonce ==> !spec_meets_difficulty(
                    #[trigger] spec_block_hash(
                        b.index,
                        b.timestamp,
                        b.previous_hash@,
                        b.merkle_root@,
                        m,
                        b.miner_address@,
                    ),
                    difficulty as nat,
                )
            },
            r is None ==> exists|ts: u64| spec_no_nonce_meets(
                index,
                ts,
                previous_hash@,
                spec_merkle_root(seq_views(data@)),
                miner_address@,
                difficulty as nat,
            ),
    {
        let timestamp = now_epoch_seconds();
        let merkle_root = Self::calculate_merkle_root(data.as_slice());
        match Self::find_nonce(
            index,
            timestamp,
            previous_hash.as_str(),
            merkle_root.as_str(),
            miner_address.as_str(),
            difficulty,
        ) {
            Some((nonce, hash)) => Some(
                Block {
                    index,
                    timestamp,
                    previous_hash,
                    merkle_root,
                    hash,
                    nonce,
                    data,
                    miner_address,
                },
            ),
            None => None,
        }
    }

    /// The genesis block: fixed index, sentinel previous-hash link, a single
    /// fixed payload item and a zero nonce; its hash is computed like any
    /// other block's but is exempt from the difficulty requirement.
    pub fn genesis() -> (b: Block)
        ensures
            b.index == 0,
            b.previous_hash@ == "GENESIS_PREV_HASH"@,
            b.nonce == 0,
            b.miner_address@ == "GENESIS"@,
            seq_views(b.data@) =~= seq![
                "KredChain Genesis Block - 2025: Participation Begins"@,
            ],
            b.merkle_root@ == spec_merkle_root(seq_views(b.data@)),
            b.hash@ == spec_block_hash(
                b.index,
                b.timestamp,
                b.previous_hash@,
                b.merkle_root@,
                b.nonce,
                b.miner_address@,
            ),
    {
        let index: u64 = 0;
        let timestamp = now_epoch_seconds();
        let previous_hash = config::genesis_prev_hash();
        let mut data: Vec<String> = Vec::new();
        data.push(config::genesis_data());
        let merkle_root = Self::calculate_merkle_root(data.as_slice());
        let nonce: u64 = 0;
        let miner_address = config::genesis_miner();

        let hash = Self::calculate_hash(
            index,
            timestamp,
            previous_hash.as_str(),
            merkle_root.as_str(),
            nonce,
            miner_address.as_str(),
        );

        Block { index, timestamp, previous_hash, merkle_root, hash, nonce, data, miner_address }
    }
}

} // verus!
