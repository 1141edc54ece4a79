use krdx::chain::block::Block;
use krdx::chain::blockchain::{Blockchain, ChainError, CoinbaseDistribution};
use krdx::chain::ledger::Ledger;
use krdx::utils::format_kred;

use sha2::Digest;

const REWARD: u64 = 4_200_000_000;
const DIFFICULTY: usize = 2;

fn two_founder_chain() -> (Blockchain, String, Vec<String>) {
    let founder_addresses = vec![String::from("KRDxFounder1"), String::from("KRDxFounder2")];
    let faucet_address = String::from("KRDxFaucet");
    let dist = CoinbaseDistribution {
        faucet_address: faucet_address.clone(),
        founder_addresses: founder_addresses.clone(),
    };
    let blockchain = Blockchain::new(dist, REWARD, DIFFICULTY).unwrap();
    (blockchain, faucet_address, founder_addresses)
}

fn sha256_hex(input: &str) -> String {
    format!("{:x}", sha2::Sha256::digest(input.as_bytes()))
}

#[test]
fn test_blockchain_growth_and_rewards() {
    let (mut blockchain, faucet_address, founder_addresses) = two_founder_chain();

    blockchain
        .add_block(
            vec![String::from("First mined block")],
            founder_addresses[0].clone(),
        )
        .unwrap();

    blockchain
        .add_block(
            vec![String::from("Second mined block")],
            founder_addresses[1].clone(),
        )
        .unwrap();

    assert_eq!(blockchain.chain.len(), 3);

    let ledger = &blockchain.ledger;
    let f_balance = ledger.get_balance(&faucet_address);
    let f1_balance = ledger.get_balance(&founder_addresses[0]);
    let f2_balance = ledger.get_balance(&founder_addresses[1]);

    println!("Faucet: {} KRD", format_kred(f_balance));
    println!("Founder 1: {} KRDX", format_kred(f1_balance));
    println!("Founder 2: {} KRED", format_kred(f2_balance));

    assert!(f_balance > 0);
    assert!(f1_balance > 0);
    assert!(f2_balance > 0);
}

#[test]
fn test_empty_payload_merkle_root_is_sentinel() {
    let root = Block::calculate_merkle_root(&[]);
    assert_eq!(root, "0".repeat(64));
}

#[test]
fn test_merkle_root_deterministic() {
    let data = vec![
        String::from("alpha"),
        String::from("beta"),
        String::from("gamma"),
    ];
    let first = Block::calculate_merkle_root(&data);
    let second = Block::calculate_merkle_root(&data);
    assert_eq!(first, second);
}

#[test]
fn test_merkle_root_order_sensitive() {
    let forward = vec![String::from("alpha"), String::from("beta")];
    let backward = vec![String::from("beta"), String::from("alpha")];
    assert_ne!(
        Block::calculate_merkle_root(&forward),
        Block::calculate_merkle_root(&backward)
    );
}

#[test]
fn test_merkle_root_exact_values() {
    let single = vec![String::from("x")];
    assert_eq!(Block::calculate_merkle_root(&single), sha256_hex("x"));

    let pair = vec![String::from("alpha"), String::from("beta")];
    let la = sha256_hex("alpha");
    let lb = sha256_hex("beta");
    let expected_pair = sha256_hex(&format!("{}{}", la, lb));
    assert_eq!(Block::calculate_merkle_root(&pair), expected_pair);

    // An odd count duplicates the last leaf digest.
    let triple = vec![
        String::from("alpha"),
        String::from("beta"),
        String::from("gamma"),
    ];
    let lc = sha256_hex("gamma");
    let left = sha256_hex(&format!("{}{}", la, lb));
    let right = sha256_hex(&format!("{}{}", lc, lc));
    let expected_triple = sha256_hex(&format!("{}{}", left, right));
    assert_eq!(Block::calculate_merkle_root(&triple), expected_triple);
}

#[test]
fn test_mined_block_meets_difficulty_and_roundtrips() {
    let data = vec![String::from("payload item")];
    let block = Block::mine_block(
        1,
        "0".repeat(64),
        data.clone(),
        String::from("miner"),
        DIFFICULTY,
    )
    .unwrap();

    assert!(block.hash.starts_with(&"0".repeat(DIFFICULTY)));
    assert_eq!(block.index, 1);
    assert_eq!(block.merkle_root, Block::calculate_merkle_root(&data));

    let recomputed = Block::calculate_hash(
        block.index,
        block.timestamp,
        &block.previous_hash,
        &block.merkle_root,
        block.nonce,
        &block.miner_address,
    );
    assert_eq!(block.hash, recomputed);
}

#[test]
fn test_genesis_hash_is_self_consistent() {
    let genesis = Block::genesis();
    assert_eq!(genesis.index, 0);
    assert_eq!(genesis.previous_hash, "GENESIS_PREV_HASH");
    assert_eq!(genesis.nonce, 0);
    let recomputed = Block::calculate_hash(
        genesis.index,
        genesis.timestamp,
        &genesis.previous_hash,
        &genesis.merkle_root,
        genesis.nonce,
        &genesis.miner_address,
    );
    assert_eq!(genesis.hash, recomputed);
}

#[test]
fn test_is_valid_chain_accepts_built_chain() {
    let (mut blockchain, _, founders) = two_founder_chain();
    blockchain
        .add_block(vec![String::from("one")], founders[0].clone())
        .unwrap();
    blockchain
        .add_block(vec![String::from("two")], founders[1].clone())
        .unwrap();
    assert!(Blockchain::is_valid_chain(&blockchain.chain));
}

#[test]
fn test_is_valid_chain_rejects_single_field_mutations() {
    let (mut blockchain, _, founders) = two_founder_chain();
    blockchain
        .add_block(vec![String::from("one")], founders[0].clone())
        .unwrap();
    blockchain
        .add_block(vec![String::from("two")], founders[1].clone())
        .unwrap();
    let chain = blockchain.chain;
    assert!(Blockchain::is_valid_chain(&chain));

    // Block 1 is non-terminal: blocks 0, 1, 2 exist.
    let mut tampered = clone_chain(&chain);
    tampered[1].previous_hash = "f".repeat(64);
    assert!(!Blockchain::is_valid_chain(&tampered));

    let mut tampered = clone_chain(&chain);
    tampered[1].merkle_root = "e".repeat(64);
    assert!(!Blockchain::is_valid_chain(&tampered));

    let mut tampered = clone_chain(&chain);
    tampered[1].nonce += 1;
    assert!(!Blockchain::is_valid_chain(&tampered));

    let mut tampered = clone_chain(&chain);
    tampered[1].index += 1;
    assert!(!Blockchain::is_valid_chain(&tampered));

    let mut tampered = clone_chain(&chain);
    tampered[1].miner_address = String::from("someone else");
    assert!(!Blockchain::is_valid_chain(&tampered));
}

fn clone_chain(chain: &[Block]) -> Vec<Block> {
    chain
        .iter()
        .map(|b| Block {
            index: b.index,
            timestamp: b.timestamp,
            previous_hash: b.previous_hash.clone(),
            merkle_root: b.merkle_root.clone(),
            hash: b.hash.clone(),
            nonce: b.nonce,
            data: b.data.clone(),
            miner_address: b.miner_address.clone(),
        })
        .collect()
}

#[test]
fn test_replace_chain_fork_choice() {
    let (mut current, _, founders) = two_founder_chain();
    current
        .add_block(vec![String::from("one")], founders[0].clone())
        .unwrap();

    // An equally long valid candidate is rejected.
    let (mut rival_equal, _, rf) = two_founder_chain();
    rival_equal
        .add_block(vec![String::from("other one")], rf[0].clone())
        .unwrap();
    assert_eq!(current.chain.len(), rival_equal.chain.len());
    assert!(Blockchain::is_valid_chain(&rival_equal.chain));
    assert!(!current.replace_chain(rival_equal.chain));
    assert_eq!(current.chain.len(), 2);

    // A shorter valid candidate is rejected.
    let (rival_short, _, _) = two_founder_chain();
    assert!(!current.replace_chain(rival_short.chain));
    assert_eq!(current.chain.len(), 2);

    // A strictly longer, fully valid candidate is accepted.
    let (mut rival_long, _, rf) = two_founder_chain();
    rival_long
        .add_block(vec![String::from("a")], rf[0].clone())
        .unwrap();
    rival_long
        .add_block(vec![String::from("b")], rf[1].clone())
        .unwrap();
    let expected_len: usize = rival_long.chain.len();
    assert!(current.replace_chain(rival_long.chain));
    assert_eq!(current.chain.len(), expected_len);

    // A longer but internally inconsistent candidate is rejected.
    let (mut rival_bad, _, rf) = two_founder_chain();
    rival_bad
        .add_block(vec![String::from("a")], rf[0].clone())
        .unwrap();
    rival_bad
        .add_block(vec![String::from("b")], rf[1].clone())
        .unwrap();
    rival_bad
        .add_block(vec![String::from("c")], rf[0].clone())
        .unwrap();
    let mut bad_chain = rival_bad.chain;
    bad_chain[1].nonce += 1;
    assert!(!current.replace_chain(bad_chain));
    assert_eq!(current.chain.len(), expected_len);
}

#[test]
fn test_ledger_balances_accumulate() {
    let mut ledger = Ledger::new();
    assert_eq!(ledger.get_balance("nobody"), 0);
    ledger.credit("a", 5);
    ledger.credit("a", 7);
    assert_eq!(ledger.get_balance("a"), 12);
    assert_eq!(ledger.get_balance("b"), 0);
    ledger.credit("b", 3);
    assert_eq!(ledger.get_balance("a"), 12);
    assert_eq!(ledger.get_balance("b"), 3);
}

#[test]
fn test_reward_distribution_two_founders_exact() {
    let (mut blockchain, faucet, founders) = two_founder_chain();
    blockchain
        .add_block(vec![String::from("block")], founders[0].clone())
        .unwrap();

    assert_eq!(blockchain.ledger.get_balance(&faucet), 3_360_000_000);
    assert_eq!(blockchain.ledger.get_balance(&founders[0]), 420_000_000);
    assert_eq!(blockchain.ledger.get_balance(&founders[1]), 420_000_000);
}

#[test]
fn test_reward_distribution_three_founders_truncation() {
    let founders = vec![
        String::from("F1"),
        String::from("F2"),
        String::from("F3"),
    ];
    let faucet = String::from("Faucet");
    let dist = CoinbaseDistribution {
        faucet_address: faucet.clone(),
        founder_addresses: founders.clone(),
    };

    // Leftover 840,000,000 over three founders divides evenly.
    let mut even = Blockchain::new(dist, REWARD, DIFFICULTY).unwrap();
    even.add_block(vec![String::from("block")], founders[0].clone())
        .unwrap();
    assert_eq!(even.ledger.get_balance(&faucet), 3_360_000_000);
    for f in &founders {
        assert_eq!(even.ledger.get_balance(f), 280_000_000);
    }

    // Leftover 841,000,000 over three founders drops one unit.
    let dist = CoinbaseDistribution {
        faucet_address: faucet.clone(),
        founder_addresses: founders.clone(),
    };
    let mut uneven = Blockchain::new(dist, 4_205_000_000, DIFFICULTY).unwrap();
    uneven
        .add_block(vec![String::from("block")], founders[0].clone())
        .unwrap();
    assert_eq!(uneven.ledger.get_balance(&faucet), 3_364_000_000);
    for f in &founders {
        assert_eq!(uneven.ledger.get_balance(f), 280_333_333);
    }
    let distributed = 3_364_000_000u64 + 3 * 280_333_333;
    assert_eq!(4_205_000_000 - distributed, 1);
}

#[test]
fn test_new_rejects_empty_founder_set() {
    let dist = CoinbaseDistribution {
        faucet_address: String::from("Faucet"),
        founder_addresses: Vec::new(),
    };
    let result = Blockchain::new(dist, REWARD, DIFFICULTY);
    assert!(matches!(result, Err(ChainError::Configuration)));
}

#[test]
fn test_add_block_on_empty_chain_is_guarded() {
    let dist = CoinbaseDistribution {
        faucet_address: String::from("Faucet"),
        founder_addresses: vec![String::from("F1")],
    };
    let mut blockchain = Blockchain {
        chain: Vec::new(),
        ledger: Ledger::new(),
        dist,
        reward: REWARD,
        difficulty: DIFFICULTY,
    };
    let result = blockchain.add_block(vec![String::from("data")], String::from("miner"));
    assert!(matches!(result, Err(ChainError::EmptyChain)));
    assert!(blockchain.chain.is_empty());
}
