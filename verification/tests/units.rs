//! Unit tests for the encodings, hashes, challenges, the canonical order,
//! the weight budget and the consensus schedule.

use block_body_validator::entities::{bytes32_eq, KernelSum, TransactionKernel, TransactionOutput};
use block_body_validator::order::bytes_lt;
use block_body_validator::rules::{ConsensusConstants, ConsensusRules};
use block_body_validator::snapshot::hashes_lookup;
use digest::Digest;

fn sample_kernel() -> TransactionKernel {
    TransactionKernel {
        features: 1,
        fee: 5,
        lock_height: 9,
        excess: [7u8; 32],
        sig_nonce: [8u8; 32],
        sig_signature: [9u8; 32],
    }
}

fn sample_output() -> TransactionOutput {
    TransactionOutput {
        features: 0,
        commitment: [5u8; 32],
        script: vec![1, 2, 3],
        sender_offset_public_key: [6u8; 32],
        meta_nonce: [7u8; 32],
        meta_signature: [8u8; 32],
        range_proof: vec![9, 9],
        covenant: vec![],
    }
}

#[test]
fn kernel_encoding_is_exact() {
    let k = sample_kernel();
    let mut expected = vec![1u8];
    expected.extend_from_slice(&5u64.to_le_bytes());
    expected.extend_from_slice(&9u64.to_le_bytes());
    expected.extend_from_slice(&[7u8; 32]);
    expected.extend_from_slice(&[8u8; 32]);
    expected.extend_from_slice(&[9u8; 32]);
    assert_eq!(k.encode(), expected);
}

#[test]
fn output_encoding_prefixes_variable_fields() {
    let o = sample_output();
    let mut expected = vec![0u8];
    expected.extend_from_slice(&[5u8; 32]);
    expected.extend_from_slice(&3u64.to_le_bytes());
    expected.extend_from_slice(&[1, 2, 3]);
    expected.extend_from_slice(&[6u8; 32]);
    expected.extend_from_slice(&[7u8; 32]);
    expected.extend_from_slice(&[8u8; 32]);
    expected.extend_from_slice(&2u64.to_le_bytes());
    expected.extend_from_slice(&[9, 9]);
    expected.extend_from_slice(&0u64.to_le_bytes());
    assert_eq!(o.encode(), expected);
}

#[test]
fn output_hash_is_the_digest_of_its_encoding() {
    let o = sample_output();
    let expected: [u8; 32] = blake2::Blake2b256::digest(o.encode()).into();
    assert_eq!(o.hash(), expected);
    // and it depends on the content
    let mut o2 = o.clone();
    o2.script[0] ^= 1;
    assert_ne!(o2.hash(), o.hash());
}

#[test]
fn kernel_challenge_is_the_wide_digest_of_its_parts() {
    let k = sample_kernel();
    let mut input = vec![];
    input.extend_from_slice(&k.sig_nonce);
    input.extend_from_slice(&k.excess);
    input.push(k.features);
    input.extend_from_slice(&k.fee.to_le_bytes());
    input.extend_from_slice(&k.lock_height.to_le_bytes());
    let expected: Vec<u8> = blake2::Blake2b512::digest(&input).to_vec();
    assert_eq!(k.signature_challenge(), expected);
}

#[test]
fn canonical_order_is_lexicographic() {
    assert!(bytes_lt(&vec![], &vec![0]));
    assert!(bytes_lt(&vec![1, 2], &vec![1, 3]));
    assert!(bytes_lt(&vec![1, 2], &vec![1, 2, 0]));
    assert!(!bytes_lt(&vec![1, 3], &vec![1, 2, 9]));
    assert!(!bytes_lt(&vec![1, 2], &vec![1, 2]));
    assert!(!bytes_lt(&vec![2], &vec![1, 9]));
}

#[test]
fn byte_equality_and_lookup() {
    assert!(bytes32_eq(&[3u8; 32], &[3u8; 32]));
    let mut other = [3u8; 32];
    other[31] = 4;
    assert!(!bytes32_eq(&[3u8; 32], &other));
    assert!(hashes_lookup(&vec![[1u8; 32], other], &other));
    assert!(!hashes_lookup(&vec![[1u8; 32]], &other));
}

#[test]
fn schedule_picks_the_active_epoch() {
    let early = ConsensusConstants {
        effective_from_height: 0,
        max_block_weight: 100,
        input_weight: 1,
        output_weight: 2,
        kernel_weight: 3,
        block_reward: 5000,
    };
    let late = ConsensusConstants { effective_from_height: 50, block_reward: 2500, ..early };
    let rules = ConsensusRules::new(vec![early, late]).unwrap();
    assert_eq!(rules.constants_at(0).block_reward, 5000);
    assert_eq!(rules.constants_at(49).block_reward, 5000);
    assert_eq!(rules.constants_at(50).block_reward, 2500);
    assert_eq!(rules.constants_at(1000).block_reward, 2500);
    assert_eq!(rules.emission(100), 2500);
}

#[test]
fn schedules_must_start_at_genesis_and_ascend() {
    let base = ConsensusConstants {
        effective_from_height: 1,
        max_block_weight: 100,
        input_weight: 1,
        output_weight: 1,
        kernel_weight: 1,
        block_reward: 1,
    };
    assert!(ConsensusRules::new(vec![]).is_none());
    assert!(ConsensusRules::new(vec![base]).is_none());
    let genesis = ConsensusConstants { effective_from_height: 0, ..base };
    assert!(ConsensusRules::new(vec![genesis, genesis]).is_none());
    assert!(ConsensusRules::new(vec![genesis]).is_some());
}

#[test]
fn coinbase_and_fees_sums_the_fees() {
    let rules = ConsensusRules::new(vec![ConsensusConstants {
        effective_from_height: 0,
        max_block_weight: 100,
        input_weight: 1,
        output_weight: 1,
        kernel_weight: 1,
        block_reward: 5000,
    }])
    .unwrap();
    let mut k1 = sample_kernel();
    k1.fee = 30;
    let mut k2 = sample_kernel();
    k2.fee = 12;
    assert_eq!(rules.calculate_coinbase_and_fees(0, &vec![k1, k2]), 5042);
    assert_eq!(rules.calculate_coinbase_and_fees(0, &vec![]), 5000);
}

#[test]
fn kernel_sum_default_is_empty() {
    let s = KernelSum::default();
    assert_eq!(s.sum, [0u8; 32]);
    assert_eq!(s.fees, 0);
}
