//! Configuration constants of the ledger core: the genesis literals and the
//! monetary schedule.

use vstd::prelude::*;

verus! {

/// Block reward, in koin (the smallest unit; one kred is 10^8 koin).
pub const BLOCK_REWARD_KOIN: u64 = 4_200_000_000;

/// Target spacing between blocks, in seconds.
pub const SECONDS_PER_BLOCK: u64 = 5;

/// Hard cap on the total koin supply.
pub const MAX_SUPPLY_KOIN: u64 = 2_100_000_000 * 100_000_000;

/// Number of blocks between reward halvings.
pub const HALVING_INTERVAL_BLOCKS: u64 = 4 * 365 * 24 * 60 * 60 / SECONDS_PER_BLOCK;

/// Payload of the single genesis data item.
pub fn genesis_data() -> (r: String)
    ensures
        r@ == "KredChain Genesis Block - 2025: Participation Begins"@,
{
    "KredChain Genesis Block - 2025: Participation Begins".to_owned()
}

/// Sentinel stored as the previous-hash link of the genesis block.
pub fn genesis_prev_hash() -> (r: String)
    ensures
        r@ == "GENESIS_PREV_HASH"@,
{
    "GENESIS_PREV_HASH".to_owned()
}

/// Reserved miner identity recorded on the genesis block.
pub fn genesis_miner() -> (r: String)
    ensures
        r@ == "GENESIS"@,
{
    "GENESIS".to_owned()
}

} // verus!
