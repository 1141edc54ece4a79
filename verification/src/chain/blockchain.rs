//! The chain itself: ordered sealed blocks starting at genesis, the ledger
//! the block rewards drive, whole-chain validation, and fork choice.

use vstd::prelude::*;

use crate::chain::block::{
    Block, seq_views, spec_block_hash, spec_meets_difficulty, spec_merkle_root,
    spec_no_nonce_meets,
};
use crate::chain::ledger::{Ledger, spec_balance, spec_credit};

verus! {

/// Where each block's reward goes: a faucet address and a non-empty ordered
/// set of founder addresses.
pub struct CoinbaseDistribution {
    pub faucet_address: String,
    pub founder_addresses: Vec<String>,
}

/// Failures of chain construction and growth.
#[derive(Debug, Clone, Copy, PartialEq, Eq)]
pub enum ChainError {
    /// An empty founder address set was passed at construction: the reward
    /// split would divide by zero.
    Configuration,
    /// The chain holds no block to read a tip from; unreachable once a
    /// genesis block exists, guarded defensively.
    EmptyChain,
    /// No nonce in the `u64` space satisfied the difficulty for the captured
    /// timestamp.
    NonceSpaceExhausted,
}

/// The single-node blockchain: the block sequence, the ledger it drives, and
/// its reward and difficulty configuration.
pub struct Blockchain {
    pub chain: Vec<Block>,
    pub ledger: Ledger,
    pub dist: CoinbaseDistribution,
    pub reward: u64,
    pub difficulty: usize,
}

/// Chain-of-custody invariant: every block after the first links to its
/// predecessor's stored hash, and its stored hash equals an independent
/// recomputation from its stored fields. The difficulty predicate is
/// deliberately not re-checked here.
pub open spec fn spec_chain_valid(chain: Seq<Block>) -> bool {
    forall|i: int| 1 <= i < chain.len() ==> {
        &&& (#[trigger] chain[i]).previous_hash@ == chain[i - 1].hash@
        &&& chain[i].hash@ == spec_block_hash(
            chain[i].index,
            chain[i].timestamp,
            chain[i].previous_hash@,
            chain[i].merkle_root@,
            chain[i].nonce,
            chain[i].miner_address@,
        )
    }
}

/// The faucet's share of the block reward: 80 percent, rounded down.
pub open spec fn spec_faucet_cut(reward: u64) -> u64 {
    ((reward * 80) / 100) as u64
}

/// What one founder receives: the reward leftover after the faucet's cut,
/// divided among the founders, rounded down (the remainder is dropped).
pub open spec fn spec_founder_cut(reward: u64, founders: nat) -> u64 {
    if founders == 0 {
        0u64
    } else {
        (((reward - spec_faucet_cut(reward)) as int) / (founders as int)) as u64
    }
}

/// The ledger after crediting `cut` to each founder, in list order.
pub open spec fn spec_credit_founders(
    m: Map<Seq<char>, u64>,
    founders: Seq<Seq<char>>,
    cut: u64,
) -> Map<Seq<char>, u64>
    decreases founders.len(),
{
    if founders.len() == 0 {
        m
    } else {
        spec_credit_founders(spec_credit(m, founders[0], cut), founders.drop_first(), cut)
    }
}

/// No balance overflows while crediting `cut` to each founder in order.
pub open spec fn spec_founders_fit(
    m: Map<Seq<char>, u64>,
    founders: Seq<Seq<char>>,
    cut: u64,
) -> bool
    decreases founders.len(),
{
    if founders.len() == 0 {
        true
    } else {
        &&& spec_balance(m, founders[0]) + cut <= u64::MAX
        &&& spec_founders_fit(spec_credit(m, founders[0], cut), founders.drop_first(), cut)
    }
}

/// The ledger after one block's full reward distribution: the faucet first,
/// then each founder in list order.
pub open spec fn spec_distribute(
    m: Map<Seq<char>, u64>,
    faucet: Seq<char>,
    founders: Seq<Seq<char>>,
    reward: u64,
) -> Map<Seq<char>, u64> {
    spec_credit_founders(
        spec_credit(m, faucet, spec_faucet_cut(reward)),
        founders,
        spec_founder_cut(reward, founders.len()),
    )
}

/// No balance overflows during one block's full reward distribution.
pub open spec fn spec_distribution_fits(
    m: Map<Seq<char>, u64>,
    faucet: Seq<char>,
    founders: Seq<Seq<char>>,
    reward: u64,
) -> bool {
    &&& spec_balance(m, faucet) + spec_faucet_cut(reward) <= u64::MAX
    &&& spec_founders_fit(
        spec_credit(m, faucet, spec_faucet_cut(reward)),
        founders,
        spec_founder_cut(reward, founders.len()),
    )
}

/// Growing a valid chain by a sealed block that links to the tip's stored
/// hash and stores a self-consistent hash keeps the chain valid. A chain
/// built solely by successive `add_block` calls from genesis therefore always
/// passes `is_valid_chain`.
pub proof fn lemma_chain_extend_valid(chain: Seq<Block>, b: Block)
    requires
        spec_chain_valid(chain),
        chain.len() >= 1,
        b.previous_hash@ == chain.last().hash@,
        b.hash@ == spec_block_hash(
            b.index,
            b.timestamp,
            b.previous_hash@,
            b.merkle_root@,
            b.nonce,
            b.miner_address@,
        ),
    ensures
        spec_chain_valid(chain.push(b)),
{
    let extended = chain.push(b);
    assert forall|i: int| 1 <= i < extended.len() implies {
        &&& (#[trigger] extended[i]).previous_hash@ == extended[i - 1].hash@
        &&& extended[i].hash@ == spec_block_hash(
            extended[i].index,
            extended[i].timestamp,
            extended[i].previous_hash@,
            extended[i].merkle_root@,
            extended[i].nonce,
            extended[i].miner_address@,
        )
    } by {
        if i < chain.len() {
            assert(extended[i] == chain[i]);
            assert(extended[i - 1] == chain[i - 1]);
            assert(chain[i].previous_hash@ == chain[i - 1].hash@);
        } else {
            assert(extended[i] == b);
            assert(extended[i - 1] == chain[chain.len() - 1]);
        }
    }
}

/// Tampering with the stored `previous_hash` of any non-genesis block of a
/// valid chain breaks validity: the altered link no longer matches the
/// predecessor's stored hash, whatever the forged block's other fields hold.
pub proof fn lemma_tampered_link_invalidates(chain: Seq<Block>, i: int, forged: Block)
    requires
        spec_chain_valid(chain),
        1 <= i < chain.len(),
        forged.previous_hash@ != chain[i].previous_hash@,
    ensures
        !spec_chain_valid(chain.update(i, forged)),
{
    let tampered = chain.update(i, forged);
    assert(tampered[i] == forged);
    assert(tampered[i - 1] == chain[i - 1]);
    assert(chain[i].previous_hash@ == chain[i - 1].hash@);
    assert(spec_chain_valid(tampered) ==> tampered[i].previous_hash@ == tampered[i - 1].hash@);
}

/// Integer-division truncation in the reward split: the faucet's cut never
/// exceeds the reward, the founder cuts together never exceed the leftover,
/// and the permanently dropped remainder is smaller than the founder count.
pub proof fn lemma_reward_split_truncation(reward: u64, founders: nat)
    requires
        founders >= 1,
    ensures
        spec_faucet_cut(reward) <= reward,
        spec_founder_cut(reward, founders) * founders <= reward - spec_faucet_cut(reward),
        reward - spec_faucet_cut(reward) - spec_founder_cut(reward, founders) * founders
            < founders,
{
    let leftover = reward - spec_faucet_cut(reward);
    let f = founders as int;
    vstd::arithmetic::div_mod::lemma_fundamental_div_mod(leftover, f);
    vstd::arithmetic::div_mod::lemma_mod_bound(leftover, f);
    assert(leftover == f * (leftover / f) + (leftover % f));
    assert(0 <= leftover / f) by {
        vstd::arithmetic::div_mod::lemma_div_pos_is_pos(leftover, f);
    }
    assert(leftover / f <= leftover) by {
        vstd::arithmetic::div_mod::lemma_div_is_ordered_by_denominator(leftover, 1, f);
    }
    assert(spec_founder_cut(reward, founders) == leftover / f);
    assert(spec_founder_cut(reward, founders) * founders == f * (leftover / f)) by {
        vstd::arithmetic::mul::lemma_mul_is_commutative(
            spec_founder_cut(reward, founders) as int,
            f,
        );
    }
}

impl Blockchain {
    /// A fresh chain: exactly the genesis block, an empty ledger, and the
    /// given distribution and mining configuration. Rejected at construction
    /// when the founder set is empty.
    pub fn new(dist: CoinbaseDistribution, reward: u64, difficulty: usize) -> (r: Result<
        Blockchain,
        ChainError,
    >)
        ensures
            r is Err <==> dist.founder_addresses@.len() == 0,
            r is Err ==> r == Err::<Blockchain, ChainError>(ChainError::Configuration),
            r matches Ok(bc) ==> {
                &&& bc.chain@.len() == 1
                &&& bc.chain@[0].index == 0
                &&& bc.chain@[0].previous_hash@ == "GENESIS_PREV_HASH"@
                &&& bc.chain@[0].nonce == 0
                &&& bc.chain@[0].miner_address@ == "GENESIS"@
                &&& seq_views(bc.chain@[0].data@) =~= seq![
                    "KredChain Genesis Block - 2025: Participation Begins"@,
                ]
                &&& bc.chain@[0].merkle_root@ == spec_merkle_root(seq_views(bc.chain@[0].data@))
                &&& bc.chain@[0].hash@ == spec_block_hash(
                    bc.chain@[0].index,
                    bc.chain@[0].timestamp,
                    bc.chain@[0].previous_hash@,
                    bc.chain@[0].merkle_root@,
                    bc.chain@[0].nonce,
                    bc.chain@[0].miner_address@,
                )
                &&& spec_chain_valid(bc.chain@)
                &&& bc.ledger@ == Map::<Seq<char>, u64>::empty()
                &&& bc.dist == dist
                &&& bc.reward == reward
                &&& bc.difficulty == difficulty
            },
    {
        if dist.founder_addresses.len() == 0 {
            return Err(ChainError::Configuration);
        }
        let mut chain: Vec<Block> = Vec::new();
        chain.push(Block::genesis());
        let bc = Blockchain { chain, ledger: Ledger::new(), dist, reward, difficulty };
        Ok(bc)
    }

    /// Seals a block of `data` on the current tip, distributes the block
    /// reward — the faucet's cut first, then each founder's equal cut in list
    /// order — and appends the sealed block. Mining fully succeeds before the
    /// ledger is touched, and the ledger is credited before the append.
    pub fn add_block(&mut self, data: Vec<String>, miner_address: String) -> (r: Result<
        (),
        ChainError,
    >)
        requires
            old(self).dist.founder_addresses@.len() >= 1,
            old(self).reward * 80 <= u64::MAX,
            old(self).chain@.len() >= 1 ==> old(self).chain@.last().index < u64::MAX,
            spec_distribution_fits(
                old(self).ledger@,
                old(self).dist.faucet_address@,
                seq_views(old(self).dist.founder_addresses@),
                old(self).reward,
            ),
        ensures
            old(self).chain@.len() == 0 <==> r == Err::<(), ChainError>(ChainError::EmptyChain),
            r is Err ==> *final(self) == *old(self),
            r is Err && old(self).chain@.len() >= 1 ==> r == Err::<(), ChainError>(
                ChainError::NonceSpaceExhausted,
            ) && exists|ts: u64| #[trigger] spec_no_nonce_meets(
                (old(self).chain@.last().index + 1) as u64,
                ts,
                old(self).chain@.last().hash@,
                spec_merkle_root(seq_views(data@)),
                miner_address@,
                old(self).difficulty as nat,
            ),
            r is Ok ==> {
                let b = final(self).chain@.last();
                &&& final(self).chain@ == old(self).chain@.push(b)
                &&& b.index == old(self).chain@.last().index + 1
                &&& b.previous_hash@ == old(self).chain@.last().hash@
                &&& b.data == data
                &&& b.miner_address == miner_address
                &&& b.merkle_root@ == spec_merkle_root(seq_views(data@))
                &&& b.hash@ == spec_block_hash(
                    b.index,
                    b.timestamp,
                    b.previous_hash@,
                    b.merkle_root@,
                    b.nonce,
                    b.miner_address@,
                )
                &&& spec_meets_difficulty(b.hash@, old(self).difficulty as nat)
                &&& final(self).ledger@ == spec_distribute(
                    old(self).ledger@,
                    old(self).dist.faucet_address@,
                    seq_views(old(self).dist.founder_addresses@),
                    old(self).reward,
                )
                &&& final(self).dist == old(self).dist
                &&& final(self).reward == old(self).reward
                &&& final(self).difficulty == old(self).difficulty
                &&& (spec_chain_valid(old(self).chain@) ==> spec_chain_valid(final(self).chain@))
            },
    {
        let n = self.chain.len();
        if n == 0 {
            return Err(ChainError::EmptyChain);
        }
        proof {
            assert(self.chain@[n - 1] == self.chain@.last());
        }
        let last_index = self.chain[n - 1].index;
        let last_hash = self.chain[n - 1].hash.clone();

        let mined = Block::mine_block(
            last_index + 1,
            last_hash,
            data,
            miner_address,
            self.difficulty,
        );
        let new_block = match mined {
            Some(b) => b,
            None => {
                return Err(ChainError::NonceSpaceExhausted);
            },
        };

        let ghost m0 = self.ledger@;
        let ghost faucet_v = self.dist.faucet_address@;
        let ghost fviews = seq_views(self.dist.founder_addresses@);

        let faucet_cut = (self.reward * 80) / 100;
        let leftover = self.reward - faucet_cut;
        let fcount = self.dist.founder_addresses.len();
        let founder_cut_each = leftover / (fcount as u64);
        proof {
            assert(faucet_cut == spec_faucet_cut(self.reward));
            assert(fviews.len() == fcount);
            assert(founder_cut_each == spec_founder_cut(self.reward, fviews.len()));
        }

        let faucet_addr = self.dist.faucet_address.clone();
        self.ledger.credit(faucet_addr.as_str(), faucet_cut);
        let ghost m1 = self.ledger@;
        proof {
            assert(m1 == spec_credit(m0, faucet_v, faucet_cut));
            assert(fviews.skip(0) =~= fviews);
        }

        let mut i: usize = 0;
        while i < fcount
            invariant
                fcount == self.dist.founder_addresses@.len(),
                i <= fcount,
                self.chain == old(self).chain,
                self.dist == old(self).dist,
                self.reward == old(self).reward,
                self.difficulty == old(self).difficulty,
                fviews == seq_views(self.dist.founder_addresses@),
                spec_founders_fit(self.ledger@, fviews.skip(i as int), founder_cut_each),
                spec_credit_founders(self.ledger@, fviews.skip(i as int), founder_cut_each)
                    == spec_credit_founders(m1, fviews, founder_cut_each),
            decreases fcount - i,
        {
            let f = self.dist.founder_addresses[i].clone();
            proof {
                assert(fviews.skip(i as int)[0] == fviews[i as int]);
                assert(fviews[i as int] == f@);
            }
            self.ledger.credit(f.as_str(), founder_cut_each);
            proof {
                assert(fviews.skip(i as int).drop_first() =~= fviews.skip(i as int + 1));
            }
            i = i + 1;
        }
        proof {
            assert(fviews.skip(fcount as int) =~= Seq::<Seq<char>>::empty());
            assert(self.ledger@ == spec_credit_founders(m1, fviews, founder_cut_each));
            assert(self.ledger@ == spec_distribute(m0, faucet_v, fviews, self.reward));
        }

        let ghost prev_chain = self.chain@;
        self.chain.push(new_block);
        proof {
            assert(self.chain@.last() == new_block);
            if spec_chain_valid(prev_chain) {
                lemma_chain_extend_valid(prev_chain, new_block);
            }
        }
        Ok(())
    }

    /// Link continuity and hash self-consistency of every adjacent pair; the
    /// difficulty predicate is deliberately not re-checked, so a block whose
    /// hash is internally consistent but misses the difficulty prefix still
    /// passes.
    pub fn is_valid_chain(chain: &[Block]) -> (r: bool)
        ensures
            r == spec_chain_valid(chain@),
    {
        let n = chain.len();
        if n <= 1 {
            return true;
        }
        let mut i: usize = 1;
        while i < n
            invariant
                n == chain@.len(),
                1 <= i <= n,
                forall|j: int| 1 <= j < i ==> {
                    &&& (#[trigger] chain@[j]).previous_hash@ == chain@[j - 1].hash@
                    &&& chain@[j].hash@ == spec_block_hash(
                        chain@[j].index,
                        chain@[j].timestamp,
                        chain@[j].previous_hash@,
                        chain@[j].merkle_root@,
                        chain@[j].nonce,
                        chain@[j].miner_address@,
                    )
                },
            decreases n - i,
        {
            if chain[i].previous_hash != chain[i - 1].hash {
                proof {
                    assert(spec_chain_valid(chain@) ==> chain@[i as int].previous_hash@
                        == chain@[i as int - 1].hash@);
                }
                return false;
            }

            let recalculated = Block::calculate_hash(
                chain[i].index,
                chain[i].timestamp,
                chain[i].previous_hash.as_str(),
                chain[i].merkle_root.as_str(),
                chain[i].nonce,
                chain[i].miner_address.as_str(),
            );

            if chain[i].hash != recalculated {
                proof {
                    assert(spec_chain_valid(chain@) ==> chain@[i as int].hash@
                        == spec_block_hash(
                        chain@[i as int].index,
                        chain@[i as int].timestamp,
                        chain@[i as int].previous_hash@,
                        chain@[i as int].merkle_root@,
                        chain@[i as int].nonce,
                        chain@[i as int].miner_address@,
                    ));
                }
                return false;
            }

            i = i + 1;
        }
        true
    }

    /// Fork choice: adopts `new_chain` exactly when it is strictly longer
    /// than the current chain and passes `is_valid_chain`; otherwise the
    /// current chain stays untouched. Rejection is silent: the outcome is the
    /// returned flag.
    pub fn replace_chain(&mut self, new_chain: Vec<Block>) -> (r: bool)
        ensures
            r == (new_chain@.len() > old(self).chain@.len() && spec_chain_valid(new_chain@)),
            r ==> final(self).chain == new_chain && final(self).ledger == old(self).ledger
                && final(self).dist == old(self).dist && final(self).reward == old(self).reward
                && final(self).difficulty == old(self).difficulty,
            !r ==> *final(self) == *old(self),
    {
        if new_chain.len() <= self.chain.len() {
            return false;
        }
        if !Self::is_valid_chain(new_chain.as_slice()) {
            return false;
        }
        self.chain = new_chain;
        true
    }
}

} // verus!
