use cpuminer::transaction::{Outpoint, Input, Output, Transaction, DecodeError};
use cpuminer::types::Hash256;
use cpuminer::merkle::merkle_root;

fn sample_input() -> Input {
    Input {
        prevout: Outpoint { hash: Hash256::new((0u8..32).collect()), index: 7 },
        sequence: 0xfffffffe,
        witness: Vec::new(),
    }
}

#[test]
fn input_encode_layout() {
    let input = sample_input();
    assert_eq!(input.size(), 40);
    let enc = input.encode();
    assert_eq!(enc.len(), 40);
    assert_eq!(&enc[0..32], (0u8..32).collect::<Vec<u8>>().as_slice());
    assert_eq!(&enc[32..36], &[7, 0, 0, 0]);
    assert_eq!(&enc[36..40], &[0xfe, 0xff, 0xff, 0xff]);
}

#[test]
fn input_decode_round_trip() {
    let input = sample_input();
    let enc = input.encode();
    let (decoded, next) = Input::decode(&enc, 0).unwrap();
    assert_eq!(next, 40);
    assert_eq!(decoded.prevout.hash.bytes, input.prevout.hash.bytes);
    assert_eq!(decoded.prevout.index, input.prevout.index);
    assert_eq!(decoded.sequence, input.sequence);
    assert!(decoded.witness.is_empty());
}

#[test]
fn input_decode_short_buffer_fails() {
    let enc = sample_input().encode();
    assert_eq!(Input::decode(&enc, 1).unwrap_err(), DecodeError::UnexpectedEnd);
    assert_eq!(Input::decode(&vec![0u8; 39], 0).unwrap_err(), DecodeError::UnexpectedEnd);
}

#[test]
fn transaction_encoding_exact_bytes() {
    let tx = Transaction { version: 1, inputs: Vec::new(), outputs: Vec::new(), lock_time: 2 };
    let enc = tx.encode();
    let mut expected = vec![1, 0, 0, 0];
    expected.extend_from_slice(&[0; 8]);
    expected.extend_from_slice(&[0; 8]);
    expected.extend_from_slice(&[2, 0, 0, 0]);
    assert_eq!(enc, expected);
}

#[test]
fn transaction_encoding_covers_witness() {
    let mut with_witness = sample_input();
    with_witness.witness = vec![vec![0xaa, 0xbb]];
    let t1 = Transaction {
        version: 0,
        inputs: vec![sample_input()],
        outputs: vec![Output { value: 50, script_pubkey: vec![0x51] }],
        lock_time: 0,
    };
    let t2 = Transaction {
        version: 0,
        inputs: vec![with_witness],
        outputs: vec![Output { value: 50, script_pubkey: vec![0x51] }],
        lock_time: 0,
    };
    assert_ne!(t1.encode(), t2.encode());
    assert_ne!(t1.hash().bytes, t2.hash().bytes);
    assert_eq!(t1.hash().bytes, t1.hash().bytes);
    assert_eq!(t1.hash().bytes.len(), 32);
}

#[test]
fn merkle_root_of_single_leaf_is_the_leaf() {
    let coinbase = Hash256::new(vec![0x77; 32]);
    let root = merkle_root(&coinbase, &Vec::new());
    assert_eq!(root.bytes, coinbase.bytes);
}

#[test]
fn merkle_root_depends_on_every_leaf() {
    let coinbase = Hash256::new(vec![0x77; 32]);
    let a = Hash256::new(vec![0x01; 32]);
    let b = Hash256::new(vec![0x02; 32]);

    let r1 = merkle_root(&coinbase, &vec![Hash256::new(vec![0x01; 32])]);
    let r2 = merkle_root(&coinbase, &vec![Hash256::new(vec![0x02; 32])]);
    assert_ne!(r1.bytes, r2.bytes);
    assert_ne!(r1.bytes, coinbase.bytes);

    // deterministic, and sensitive to order
    let r12 = merkle_root(&coinbase, &vec![a, b]);
    let r12_again = merkle_root(
        &coinbase,
        &vec![Hash256::new(vec![0x01; 32]), Hash256::new(vec![0x02; 32])],
    );
    assert_eq!(r12.bytes, r12_again.bytes);
    let r21 = merkle_root(
        &coinbase,
        &vec![Hash256::new(vec![0x02; 32]), Hash256::new(vec![0x01; 32])],
    );
    assert_ne!(r12.bytes, r21.bytes);

    // an odd level pairs its trailing node with itself, so two equal
    // leaves give a different root than one
    let r11 = merkle_root(&coinbase, &vec![Hash256::new(vec![0x01; 32])]);
    let r111 = merkle_root(
        &coinbase,
        &vec![Hash256::new(vec![0x01; 32]), Hash256::new(vec![0x01; 32])],
    );
    assert_ne!(r11.bytes, r111.bytes);
}
