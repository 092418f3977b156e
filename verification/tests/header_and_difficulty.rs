use cpuminer::header::BlockHeaderBytes;
use cpuminer::difficulty::{bits_to_target, target_to_bits, verify_pow};
use cpuminer::types::Uint256 as U256;
use cpuminer::types::{Hash256, Uint256};
use cpuminer::le_bytes::{le_bytes_le, u32_to_le_bytes, u64_to_le_bytes};
use sp800_185::KMac;

fn hash_of(byte: u8) -> Hash256 {
    Hash256::new(vec![byte; 32])
}

#[test]
fn header_layout_after_construction() {
    let prev = hash_of(0xab);
    let header = BlockHeaderBytes::new(0x01020304, &prev, 0x1d00ffff);
    let bytes = header.as_bytes();
    assert_eq!(bytes.len(), 240);
    assert_eq!(&bytes[0..4], &[0x04, 0x03, 0x02, 0x01]);
    assert_eq!(&bytes[4..36], vec![0xab; 32].as_slice());
    // merkle root, placeholder roots, time and nonce start zeroed
    assert!(bytes[36..196].iter().all(|b| *b == 0));
    assert!(bytes[196..204].iter().all(|b| *b == 0));
    assert_eq!(&bytes[204..208], &[0xff, 0xff, 0x00, 0x1d]);
    assert!(bytes[208..240].iter().all(|b| *b == 0));
}

#[test]
fn setters_touch_only_their_field() {
    let prev = hash_of(0x11);
    let mut header = BlockHeaderBytes::new(7, &prev, 0x207fffff);
    header.set_time(0x1122334455667788);
    let before = header.as_bytes().clone();

    let mut h = BlockHeaderBytes::new(7, &prev, 0x207fffff);
    h.set_time(0x1122334455667788);
    h.set_merkle_root_hash(&hash_of(0xcd));
    let after = h.as_bytes();
    for i in 0..240 {
        if (36..68).contains(&i) {
            assert_eq!(after[i], 0xcd);
        } else {
            assert_eq!(after[i], before[i], "byte {} changed", i);
        }
    }

    let mut h2 = BlockHeaderBytes::new(7, &prev, 0x207fffff);
    h2.set_time(0x1122334455667788);
    h2.set_nonce(&Uint256::from_le_bytes(vec![0x5a; 32]));
    let after2 = h2.as_bytes();
    for i in 0..240 {
        if (208..240).contains(&i) {
            assert_eq!(after2[i], 0x5a);
        } else {
            assert_eq!(after2[i], before[i], "byte {} changed", i);
        }
    }

    let mut h3 = BlockHeaderBytes::new(7, &prev, 0x207fffff);
    h3.set_merkle_root_hash(&hash_of(0xcd));
    h3.set_time(0x1122334455667788);
    let t = u64_to_le_bytes(0x1122334455667788);
    assert_eq!(&h3.as_bytes()[196..204], t.as_slice());

    let mut h4 = BlockHeaderBytes::new(7, &prev, 0x207fffff);
    h4.set_time(0x1122334455667788);
    h4.set_witness_root_hash(&hash_of(0x21));
    h4.set_tree_root_hash(&hash_of(0x22));
    h4.set_filter_root_hash(&hash_of(0x23));
    h4.set_reserved_root_hash(&hash_of(0x24));
    let after4 = h4.as_bytes();
    assert!(after4[68..100].iter().all(|b| *b == 0x21));
    assert!(after4[100..132].iter().all(|b| *b == 0x22));
    assert!(after4[132..164].iter().all(|b| *b == 0x23));
    assert!(after4[164..196].iter().all(|b| *b == 0x24));
    for i in 0..68 {
        assert_eq!(after4[i], before[i]);
    }
}

#[test]
fn mining_hash_is_deterministic_and_nonce_sensitive() {
    let prev = hash_of(0x42);
    let mut header = BlockHeaderBytes::new(1, &prev, 0x1d00ffff);
    header.set_time(1234567);
    let h1 = header.hash();
    let h2 = header.hash();
    assert_eq!(h1.bytes, h2.bytes);

    header.set_nonce(&Uint256::from_le_bytes([vec![1u8], vec![0u8; 31]].concat()));
    let h3 = header.hash();
    assert_ne!(h1.bytes, h3.bytes);
}

#[test]
fn mining_hash_matches_direct_construction() {
    // the two-stage construction computed directly with the outside
    // primitives: KMAC256 keyed by the nonce bytes over the pre-nonce data,
    // then keyed BLAKE2b of the same data
    let prev = hash_of(0x37);
    let mut header = BlockHeaderBytes::new(9, &prev, 0x1d00ffff);
    header.set_time(99);
    header.set_nonce(&Uint256::from_le_bytes(vec![0x0f; 32]));
    let got = header.hash();

    let bytes = header.as_bytes();
    let data = &bytes[0..208];
    let nonce = &bytes[208..240];
    let mut key = [0u8; 32];
    let mut kmac = KMac::new_kmac256(nonce, &[]);
    kmac.update(data);
    kmac.finalize(&mut key);
    let mut ctx = cryptoxide::hashing::blake2b::ContextDyn::new_keyed(32, &key);
    ctx.update_mut(data);
    let mut expected = [0u8; 32];
    ctx.finalize_at(&mut expected);

    assert_eq!(got.bytes, expected.to_vec());
}

#[test]
fn bits_decode_places_mantissa() {
    let t = bits_to_target(0x1d00ffff).unwrap();
    let mut expected = vec![0u8; 32];
    expected[26] = 0xff;
    expected[27] = 0xff;
    assert_eq!(t.bytes, expected);

    let small = bits_to_target(0x03000001).unwrap();
    let mut one = vec![0u8; 32];
    one[0] = 1;
    assert_eq!(small.bytes, one);

    // exponents below three shift the mantissa down
    let shifted = bits_to_target(0x02123456).unwrap();
    let mut expect2 = vec![0u8; 32];
    expect2[0] = 0x34;
    expect2[1] = 0x12;
    assert_eq!(shifted.bytes, expect2);
}

#[test]
fn bits_decode_rejects_bad_encodings() {
    // zero mantissa, zero after shifting, sign bit, and overflow
    assert!(bits_to_target(0x00000000).is_none());
    assert!(bits_to_target(0x05000000).is_none());
    assert!(bits_to_target(0x01001234).is_none());
    assert!(bits_to_target(0x03800000).is_none());
    assert!(bits_to_target(0x2200ff01).is_none());
    assert!(bits_to_target(0x23000001).is_none());
    assert!(bits_to_target(0xff123456).is_none());
}

#[test]
fn verify_pow_compares_against_target() {
    let zero = Hash256::zero();
    assert!(verify_pow(&zero, 0x2100ffff));
    assert!(!verify_pow(&Hash256::new(vec![0xff; 32]), 0x2100ffff));

    // target exactly one: zero and one pass, two fails
    assert!(verify_pow(&zero, 0x03000001));
    let one = Hash256::new([vec![1u8], vec![0u8; 31]].concat());
    assert!(verify_pow(&one, 0x03000001));
    let two = Hash256::new([vec![2u8], vec![0u8; 31]].concat());
    assert!(!verify_pow(&two, 0x03000001));

    // nothing passes an undecodable difficulty
    assert!(!verify_pow(&zero, 0));
}

#[test]
fn acceptance_is_monotone_in_target_on_samples() {
    // bits with target 1 and bits with a far larger target
    let low = 0x03000001;
    let high = 0x2100ffff;
    let samples = [
        Hash256::zero(),
        Hash256::new([vec![1u8], vec![0u8; 31]].concat()),
        Hash256::new(vec![0x10; 32]),
    ];
    for h in samples.iter() {
        if verify_pow(h, low) {
            assert!(verify_pow(h, high));
        }
    }
    // and not conversely: the high target's own bytes pass only the high one
    let t2 = bits_to_target(high).unwrap();
    let witness = Hash256::new(t2.bytes.clone());
    assert!(verify_pow(&witness, high));
    assert!(!verify_pow(&witness, low));
}

#[test]
fn compact_encoding_round_trips_canonical_bits() {
    for bits in [0x1d00ffffu32, 0x2100ffff, 0x01010000, 0x0200ff00, 0x207fffff, 0x04123456] {
        let target = bits_to_target(bits).unwrap();
        assert_eq!(target_to_bits(&target), bits, "bits {:#x}", bits);
    }
    // a non-canonical encoding of the same target re-encodes to the
    // canonical one
    let one = bits_to_target(0x03000001).unwrap();
    assert_eq!(target_to_bits(&one), 0x01010000);
    // the largest 256-bit integer encodes to the largest compact target
    assert_eq!(target_to_bits(&U256::max_value()), 0x2100ffff);
    assert_eq!(target_to_bits(&U256::zero()), 0);
}

#[test]
fn le_byte_comparison_orders_values() {
    let a = [vec![5u8], vec![0u8; 31]].concat();
    let b = [vec![9u8], vec![0u8; 31]].concat();
    assert!(le_bytes_le(&a, &b));
    assert!(!le_bytes_le(&b, &a));
    assert!(le_bytes_le(&a, &a));
    // the high byte dominates
    let mut c = vec![0u8; 32];
    c[31] = 1;
    assert!(le_bytes_le(&b, &c));
    assert!(!le_bytes_le(&c, &b));
    assert_eq!(u32_to_le_bytes(0x01020304), vec![0x04, 0x03, 0x02, 0x01]);
}
