use cpuminer::block_template::BlockTemplate;
use cpuminer::miner::{find_solution, CoinbaseTransactionBuilder, P2shCoinbaseTransactionBuilder};
use cpuminer::types::{Hash256, Uint256};
use cpuminer::difficulty::target_to_bits;

// Compact encoding whose target is the largest a 256-bit integer can carry
// in compact form: exponent 33, mantissa 0xffff.
const MAX_TARGET_BITS: u32 = 0x2100ffff;

#[test]
fn test_cpu_miner_low_difficulty() {
    let block_template = BlockTemplate {
        version: 0,
        previous_header_hash: Hash256::zero(),
        time: 0,
        bits: target_to_bits(&Uint256::max_value()),
        height: 0,
        transactions: Vec::new(),
        coinbase_value: 10,
    };

    let hash = vec![0u8; 20];
    let coinbase_builder = P2shCoinbaseTransactionBuilder::new(&hash, 10);
    let solution = find_solution(&block_template, coinbase_builder, u32::MAX);
    assert!(solution.is_some());
}

#[test]
fn max_target_finds_first_nonce() {
    let block_template = BlockTemplate {
        version: 0,
        previous_header_hash: Hash256::zero(),
        time: 0,
        bits: MAX_TARGET_BITS,
        height: 0,
        transactions: Vec::new(),
        coinbase_value: 0,
    };
    let script_hash = vec![0u8; 20];
    let builder = P2shCoinbaseTransactionBuilder::new(&script_hash, 0);
    let solution = find_solution(&block_template, builder, u32::MAX).unwrap();
    assert_eq!(solution.extranonce, 0);
    assert_eq!(solution.nonce.bytes, vec![0u8; 32]);
    assert_eq!(solution.time, 0);
}

#[test]
fn zero_extranonce_bound_returns_none() {
    // the smallest nonzero target, and an outer bound that excludes every
    // extranonce: the search must give up without trying a nonce
    let block_template = BlockTemplate {
        version: 0,
        previous_header_hash: Hash256::zero(),
        time: 0,
        bits: 0x0300_0001,
        height: 0,
        transactions: Vec::new(),
        coinbase_value: 0,
    };
    let script_hash = vec![0u8; 20];
    let builder = P2shCoinbaseTransactionBuilder::new(&script_hash, 0);
    let solution = find_solution(&block_template, builder, 0);
    assert!(solution.is_none());
}

#[test]
fn solution_carries_extranonce_in_coinbase_witness() {
    let block_template = BlockTemplate {
        version: 0,
        previous_header_hash: Hash256::zero(),
        time: 77,
        bits: MAX_TARGET_BITS,
        height: 0,
        transactions: Vec::new(),
        coinbase_value: 5,
    };
    let script_hash = vec![0u8; 20];
    let builder = P2shCoinbaseTransactionBuilder::new(&script_hash, 5);
    let solution = find_solution(&block_template, builder, u32::MAX).unwrap();
    assert_eq!(solution.time, 77);
    let tx = &solution.coinbase_transaction;
    assert_eq!(tx.inputs.len(), 1);
    assert_eq!(tx.inputs[0].witness.len(), 1);
    assert_eq!(tx.inputs[0].witness[0], solution.extranonce.to_le_bytes().to_vec());
}

#[test]
fn builder_hash_tracks_extranonce() {
    let script_hash = vec![7u8; 20];
    let mut builder = P2shCoinbaseTransactionBuilder::new(&script_hash, 42);
    builder.set_extranonce(&vec![1, 2, 3, 4]);
    let h1 = builder.hash();
    builder.set_extranonce(&vec![5, 6, 7, 8]);
    let h2 = builder.hash();
    assert_ne!(h1.bytes, h2.bytes);
    builder.set_extranonce(&vec![1, 2, 3, 4]);
    let h3 = builder.hash();
    assert_eq!(h1.bytes, h3.bytes);
    let tx = builder.finish();
    assert_eq!(tx.inputs[0].witness[0], vec![1, 2, 3, 4]);
    assert_eq!(tx.outputs[0].value, 42);
}

#[test]
fn mining_uses_template_transactions() {
    // a template transaction changes the merkle root, so the found nonce's
    // header differs from the empty-template one
    let tx = cpuminer::transaction::Transaction {
        version: 1,
        inputs: Vec::new(),
        outputs: Vec::new(),
        lock_time: 0,
    };
    let block_template = BlockTemplate {
        version: 0,
        previous_header_hash: Hash256::zero(),
        time: 0,
        bits: MAX_TARGET_BITS,
        height: 0,
        transactions: vec![tx],
        coinbase_value: 0,
    };
    let script_hash = vec![0u8; 20];
    let builder = P2shCoinbaseTransactionBuilder::new(&script_hash, 0);
    let solution = find_solution(&block_template, builder, u32::MAX);
    assert!(solution.is_some());
}

#[test]
fn uint256_increment_and_boundary() {
    let mut n = Uint256::zero();
    n.increment();
    let mut expected = vec![0u8; 32];
    expected[0] = 1;
    assert_eq!(n.bytes, expected);

    // carry across a full low byte
    let mut carry = Uint256::from_le_bytes(
        [vec![0xffu8], vec![0u8; 31]].concat(),
    );
    carry.increment();
    let mut after = vec![0u8; 32];
    after[1] = 1;
    assert_eq!(carry.bytes, after);

    // one below the maximum increments to the maximum and stops there
    let mut almost = Uint256::from_le_bytes([vec![0xfeu8], vec![0xffu8; 31]].concat());
    assert!(!almost.is_max());
    almost.increment();
    assert!(almost.is_max());
    assert!(Uint256::max_value().is_max());
    assert!(!Uint256::zero().is_max());
}
