//! End-to-end scenarios for the block-body validator, with real curve
//! arithmetic, signatures and range proofs.

use block_body_validator::entities::{
    AggregateBody, Block, BlockHeader, MmrRoots, TransactionInput, TransactionKernel,
    TransactionOutput,
};
use block_body_validator::errors::{MmrTree, ValidationError};
use block_body_validator::rules::{ConsensusConstants, ConsensusRules};
use block_body_validator::snapshot::ChainSnapshot;
use block_body_validator::validator::BlockValidator;
use tari_crypto::commitment::HomomorphicCommitmentFactory;
use tari_crypto::keys::PublicKey;
use tari_crypto::range_proof::RangeProofService;
use tari_crypto::ristretto::bulletproofs_plus::BulletproofsPlusService;
use tari_crypto::ristretto::pedersen::extended_commitment_factory::ExtendedPedersenCommitmentFactory;
use tari_crypto::ristretto::{RistrettoPublicKey, RistrettoSchnorr, RistrettoSecretKey};
use tari_utilities::ByteArray;

fn b32(s: &[u8]) -> [u8; 32] {
    let mut out = [0u8; 32];
    out.copy_from_slice(s);
    out
}

fn sk(v: u64) -> RistrettoSecretKey {
    RistrettoSecretKey::from(v)
}

fn commit(k: &RistrettoSecretKey, v: u64) -> [u8; 32] {
    b32(
        ExtendedPedersenCommitmentFactory::default()
            .commit_value(k, v)
            .as_bytes(),
    )
}

fn pubkey(k: &RistrettoSecretKey) -> [u8; 32] {
    b32(RistrettoPublicKey::from_secret_key(k).as_bytes())
}

fn sign(secret: &RistrettoSecretKey, nonce: &RistrettoSecretKey, challenge: &[u8]) -> [u8; 32] {
    let s = RistrettoSchnorr::sign_raw_uniform(secret, nonce.clone(), challenge).unwrap();
    b32(s.get_signature().as_bytes())
}

fn range_proof(k: &RistrettoSecretKey, v: u64) -> Vec<u8> {
    BulletproofsPlusService::init(64, 1, ExtendedPedersenCommitmentFactory::default())
        .unwrap()
        .construct_proof(k, v)
        .unwrap()
}

/// A kernel whose excess is `seed`'s key committed to zero, signed over the
/// library's challenge.
fn make_kernel(features: u8, fee: u64, lock_height: u64, seed: u64) -> TransactionKernel {
    let excess_secret = sk(seed);
    let nonce = sk(seed.wrapping_add(1_000_003));
    let mut kernel = TransactionKernel {
        features,
        fee,
        lock_height,
        excess: commit(&excess_secret, 0),
        sig_nonce: pubkey(&nonce),
        sig_signature: [0u8; 32],
    };
    let challenge = kernel.signature_challenge();
    kernel.sig_signature = sign(&excess_secret, &nonce, &challenge);
    kernel
}

/// An output committing `value` under `seed`'s blinding, with a valid range
/// proof and metadata signature under `offset_seed`'s sender-offset key.
fn make_output(features: u8, seed: u64, value: u64, offset_seed: u64) -> TransactionOutput {
    let blinding = sk(seed);
    let offset_secret = sk(offset_seed);
    let nonce = sk(offset_seed.wrapping_add(2_000_003));
    let mut output = TransactionOutput {
        features,
        commitment: commit(&blinding, value),
        script: vec![0x71],
        sender_offset_public_key: pubkey(&offset_secret),
        meta_nonce: pubkey(&nonce),
        meta_signature: [0u8; 32],
        range_proof: range_proof(&blinding, value),
        covenant: vec![],
    };
    let challenge = output.metadata_challenge();
    output.meta_signature = sign(&offset_secret, &nonce, &challenge);
    output
}

/// An input spending the output with hash `output_hash` and commitment
/// `commitment`, scripted under `script_seed`'s key.
fn make_input(
    output_hash: [u8; 32],
    commitment: [u8; 32],
    script_seed: u64,
    maturity: u64,
) -> TransactionInput {
    let script_secret = sk(script_seed);
    let nonce = sk(script_seed.wrapping_add(3_000_003));
    let mut input = TransactionInput {
        features: 0,
        maturity,
        commitment,
        script: vec![0x71],
        input_data: vec![],
        script_public_key: pubkey(&script_secret),
        sender_offset_public_key: pubkey(&sk(script_seed.wrapping_add(4_000_003))),
        sig_nonce: pubkey(&nonce),
        sig_signature: [0u8; 32],
        output_hash,
    };
    let challenge = input.script_challenge();
    input.sig_signature = sign(&script_secret, &nonce, &challenge);
    input
}

fn make_rules(reward: u64, max_weight: u64) -> ConsensusRules {
    ConsensusRules::new(vec![ConsensusConstants {
        effective_from_height: 0,
        max_block_weight: max_weight,
        input_weight: 1,
        output_weight: 1,
        kernel_weight: 1,
        block_reward: reward,
    }])
    .unwrap()
}

fn make_header(height: u64, total_script_offset: [u8; 32]) -> BlockHeader {
    BlockHeader {
        version: 1,
        height,
        total_kernel_offset: [0u8; 32],
        total_script_offset,
        output_mr: [1u8; 32],
        kernel_mr: [2u8; 32],
        input_mr: [3u8; 32],
        range_proof_mr: [4u8; 32],
    }
}

fn roots_of(header: &BlockHeader) -> MmrRoots {
    MmrRoots {
        output_mr: header.output_mr,
        kernel_mr: header.kernel_mr,
        input_mr: header.input_mr,
        range_proof_mr: header.range_proof_mr,
    }
}

fn sort_outputs(mut outputs: Vec<TransactionOutput>) -> Vec<TransactionOutput> {
    outputs.sort_by(|a, b| a.encode().cmp(&b.encode()));
    outputs
}

fn sort_inputs(mut inputs: Vec<TransactionInput>) -> Vec<TransactionInput> {
    inputs.sort_by(|a, b| a.encode().cmp(&b.encode()));
    inputs
}

fn sort_kernels(mut kernels: Vec<TransactionKernel>) -> Vec<TransactionKernel> {
    kernels.sort_by(|a, b| a.encode().cmp(&b.encode()));
    kernels
}

/// A minimal valid block at height 100: one coinbase output of the full
/// emission and one coinbase kernel with zero fee.
fn happy_block() -> (BlockValidator, Block, ChainSnapshot, MmrRoots) {
    let rules = make_rules(5000, 1_000_000);
    let kernel = make_kernel(1, 0, 0, 7);
    let output = make_output(1, 7, 5000, 8);
    let header = make_header(100, [0u8; 32]);
    let roots = roots_of(&header);
    let block = Block {
        header,
        body: AggregateBody { inputs: vec![], outputs: vec![output], kernels: vec![kernel] },
    };
    let snap = ChainSnapshot { utxo_hashes: vec![], txo_hashes: vec![] };
    (BlockValidator::new(rules, false, 1), block, snap, roots)
}

/// A valid block spending an output created in the same block: coinbase plus
/// one plain output `o`, and one input referencing `o`'s hash.
fn same_block_spend() -> (BlockValidator, Block, ChainSnapshot, MmrRoots) {
    let rules = make_rules(5000, 1_000_000);
    let kernel = make_kernel(1, 0, 0, 7);
    let coinbase = make_output(1, 7, 5000, 8);
    let spent = make_output(0, 9, 40, 10);
    let input = make_input(spent.hash(), spent.commitment, 11, 0);
    // aggregate offsets: sender offset of the one non-coinbase output less
    // the one script key
    let offset = &sk(10) - &sk(11);
    let header = make_header(100, b32(offset.as_bytes()));
    let roots = roots_of(&header);
    let block = Block {
        header,
        body: AggregateBody {
            inputs: vec![input],
            outputs: sort_outputs(vec![coinbase, spent]),
            kernels: vec![kernel],
        },
    };
    let snap = ChainSnapshot { utxo_hashes: vec![], txo_hashes: vec![] };
    (BlockValidator::new(rules, false, 1), block, snap, roots)
}

fn body_bytes(b: &Block) -> Vec<u8> {
    let mut out = vec![];
    for i in &b.body.inputs {
        out.extend_from_slice(&i.encode());
    }
    for o in &b.body.outputs {
        out.extend_from_slice(&o.encode());
    }
    for k in &b.body.kernels {
        out.extend_from_slice(&k.encode());
    }
    out
}

#[test]
fn happy_path_accepts_and_preserves_body() {
    let (v, block, snap, roots) = happy_block();
    let before = body_bytes(&block);
    let result = v.validate_body(block, &snap, &roots);
    let returned = result.expect("the happy block must validate");
    assert_eq!(body_bytes(&returned), before);
    assert_eq!(returned.header.height, 100);
}

#[test]
fn double_coinbase_kernel_rejected() {
    let (v, mut block, snap, roots) = happy_block();
    let second = make_kernel(1, 0, 0, 12);
    block.body.kernels.push(second);
    block.body.kernels = sort_kernels(block.body.kernels);
    let err = v.validate_body(block, &snap, &roots).unwrap_err();
    assert!(matches!(err, ValidationError::MoreThanOneCoinbase));
}

#[test]
fn missing_coinbase_output_rejected() {
    let (v, mut block, snap, roots) = happy_block();
    block.body.outputs.clear();
    let err = v.validate_body(block, &snap, &roots).unwrap_err();
    assert!(matches!(err, ValidationError::NoCoinbase));
}

#[test]
fn future_kernel_timelock_rejected() {
    let (v, mut block, snap, roots) = happy_block();
    block.body.kernels = vec![make_kernel(1, 0, 101, 7)];
    let err = v.validate_body(block, &snap, &roots).unwrap_err();
    assert!(matches!(err, ValidationError::MaturityError));
}

#[test]
fn same_block_spend_accepted() {
    let (v, block, snap, roots) = same_block_spend();
    let before = body_bytes(&block);
    let returned = v.validate_body(block, &snap, &roots).expect("same-block spend must validate");
    assert_eq!(body_bytes(&returned), before);
}

#[test]
fn unknown_input_rejected_with_hash() {
    let (v, mut block, snap, roots) = happy_block();
    let missing = [0xabu8; 32];
    block.body.inputs = vec![make_input(missing, commit(&sk(9), 40), 11, 0)];
    let err = v.validate_body(block, &snap, &roots).unwrap_err();
    match err {
        ValidationError::UnknownInputs(hashes) => assert_eq!(hashes, vec![missing]),
        other => panic!("expected UnknownInputs, got {:?}", other),
    }
}

#[test]
fn two_unknown_inputs_both_reported() {
    let (v, mut block, snap, roots) = happy_block();
    let m1 = [0xabu8; 32];
    let m2 = [0xcdu8; 32];
    let inputs = sort_inputs(vec![
        make_input(m1, commit(&sk(9), 40), 11, 0),
        make_input(m2, commit(&sk(13), 41), 14, 0),
    ]);
    let expected: Vec<[u8; 32]> = inputs.iter().map(|i| i.output_hash).collect();
    block.body.inputs = inputs;
    let err = v.validate_body(block, &snap, &roots).unwrap_err();
    match err {
        ValidationError::UnknownInputs(hashes) => assert_eq!(hashes, expected),
        other => panic!("expected UnknownInputs, got {:?}", other),
    }
}

#[test]
fn malformed_range_proof_rejected_unless_bypassed() {
    let (v, mut block, snap, roots) = happy_block();
    block.body.outputs[0].range_proof = vec![0u8; 10];
    let err = v.validate_body(block.clone(), &snap, &roots).unwrap_err();
    assert!(matches!(err, ValidationError::InvalidRangeProof));

    let bypassing = BlockValidator::new(make_rules(5000, 1_000_000), true, 1);
    let returned = bypassing
        .validate_body(block, &snap, &roots)
        .expect("bypassing the range proof must validate the rest");
    assert_eq!(returned.header.height, 100);
}

#[test]
fn flipped_kernel_signature_bit_rejected() {
    let (v, mut block, snap, roots) = happy_block();
    block.body.kernels[0].sig_signature[0] ^= 1;
    let err = v.validate_body(block, &snap, &roots).unwrap_err();
    assert!(matches!(err, ValidationError::InvalidSignature));
}

#[test]
fn flipped_metadata_signature_bit_rejected() {
    let (v, mut block, snap, roots) = happy_block();
    block.body.outputs[0].meta_signature[0] ^= 1;
    let err = v.validate_body(block, &snap, &roots).unwrap_err();
    assert!(matches!(err, ValidationError::InvalidSignature));
}

#[test]
fn flipped_range_proof_bit_rejected() {
    let (v, mut block, snap, roots) = happy_block();
    block.body.outputs[0].range_proof[0] ^= 1;
    let err = v.validate_body(block, &snap, &roots).unwrap_err();
    assert!(matches!(err, ValidationError::InvalidRangeProof));
}

#[test]
fn flipped_script_signature_bit_rejected() {
    let (v, mut block, snap, roots) = same_block_spend();
    block.body.inputs[0].sig_signature[0] ^= 1;
    let err = v.validate_body(block, &snap, &roots).unwrap_err();
    assert!(matches!(err, ValidationError::InvalidScript));
}

#[test]
fn inflated_output_value_breaks_kernel_sum() {
    // Rebuild the spent output of the same-block-spend block with one more
    // unit of value, signatures and range proof redone; the input keeps the
    // original commitment, so only the balance equation breaks.
    let rules = make_rules(5000, 1_000_000);
    let kernel = make_kernel(1, 0, 0, 7);
    let coinbase = make_output(1, 7, 5000, 8);
    let inflated = make_output(0, 9, 41, 10);
    let input = make_input(inflated.hash(), commit(&sk(9), 40), 11, 0);
    let offset = &sk(10) - &sk(11);
    let header = make_header(100, b32(offset.as_bytes()));
    let roots = roots_of(&header);
    let block = Block {
        header,
        body: AggregateBody {
            inputs: vec![input],
            outputs: sort_outputs(vec![coinbase, inflated]),
            kernels: vec![kernel],
        },
    };
    let snap = ChainSnapshot { utxo_hashes: vec![], txo_hashes: vec![] };
    let v = BlockValidator::new(rules, false, 1);
    let err = v.validate_body(block, &snap, &roots).unwrap_err();
    assert!(matches!(err, ValidationError::KernelSumMismatch));
}

#[test]
fn decision_identical_across_concurrency() {
    let (_, block, snap, roots) = same_block_spend();
    let mut bodies: Vec<Vec<u8>> = vec![];
    for concurrency in [1usize, 2, 8, 32] {
        let v = BlockValidator::new(make_rules(5000, 1_000_000), false, concurrency);
        let returned = v.validate_body(block.clone(), &snap, &roots).expect("accepted");
        bodies.push(body_bytes(&returned));
    }
    assert!(bodies.windows(2).all(|w| w[0] == w[1]));

    let mut bad = block.clone();
    bad.body.kernels[0].sig_signature[0] ^= 1;
    for concurrency in [1usize, 2, 8, 32] {
        let v = BlockValidator::new(make_rules(5000, 1_000_000), false, concurrency);
        let err = v.validate_body(bad.clone(), &snap, &roots).unwrap_err();
        assert!(matches!(err, ValidationError::InvalidSignature));
    }
}

#[test]
fn block_too_large_rejected() {
    let (_, block, snap, roots) = happy_block();
    let v = BlockValidator::new(make_rules(5000, 1), false, 1);
    let err = v.validate_body(block, &snap, &roots).unwrap_err();
    assert!(matches!(err, ValidationError::BlockTooLarge));
}

#[test]
fn unsorted_outputs_rejected() {
    let (v, mut block, snap, roots) = same_block_spend();
    block.body.outputs.reverse();
    let err = v.validate_body(block, &snap, &roots).unwrap_err();
    assert!(matches!(err, ValidationError::UnsortedOrDuplicateOutput));
}

#[test]
fn duplicate_output_rejected() {
    let (v, mut block, snap, roots) = happy_block();
    let copy = block.body.outputs[0].clone();
    block.body.outputs.push(copy);
    let err = v.validate_body(block, &snap, &roots).unwrap_err();
    assert!(matches!(err, ValidationError::UnsortedOrDuplicateOutput));
}

#[test]
fn unsorted_inputs_rejected() {
    let (v, mut block, snap, roots) = happy_block();
    let i1 = make_input([0xabu8; 32], commit(&sk(9), 40), 11, 0);
    let i2 = make_input([0xcdu8; 32], commit(&sk(13), 41), 14, 0);
    let mut inputs = sort_inputs(vec![i1, i2]);
    inputs.reverse();
    block.body.inputs = inputs;
    let err = v.validate_body(block, &snap, &roots).unwrap_err();
    assert!(matches!(err, ValidationError::UnsortedOrDuplicateInput));
}

#[test]
fn unsorted_kernels_rejected() {
    let (v, mut block, snap, roots) = happy_block();
    let k2 = make_kernel(0, 1, 0, 15);
    let mut kernels = sort_kernels(vec![block.body.kernels[0], k2]);
    kernels.reverse();
    block.body.kernels = kernels;
    let err = v.validate_body(block, &snap, &roots).unwrap_err();
    assert!(matches!(err, ValidationError::UnsortedOrDuplicateKernel));
}

#[test]
fn immature_input_rejected() {
    let (v, mut block, snap, roots) = happy_block();
    block.body.inputs = vec![make_input([0xabu8; 32], commit(&sk(9), 40), 11, 101)];
    let err = v.validate_body(block, &snap, &roots).unwrap_err();
    assert!(matches!(err, ValidationError::InputMaturity));
}

#[test]
fn known_utxo_input_accepted_from_snapshot() {
    // The same-block-spend block, but with the spent output's hash known to
    // the snapshot instead: the input resolves against the chain.
    let (v, block, _, roots) = same_block_spend();
    let snap = ChainSnapshot {
        utxo_hashes: vec![block.body.inputs[0].output_hash],
        txo_hashes: vec![],
    };
    v.validate_body(block, &snap, &roots).expect("input known to the snapshot must validate");
}

#[test]
fn duplicate_txo_rejected() {
    let (v, block, _, roots) = happy_block();
    let snap = ChainSnapshot {
        utxo_hashes: vec![],
        txo_hashes: vec![block.body.outputs[0].hash()],
    };
    let err = v.validate_body(block, &snap, &roots).unwrap_err();
    assert!(matches!(err, ValidationError::ContainsTxO));
}

#[test]
fn no_coinbase_kernel_rejected() {
    let (v, mut block, snap, roots) = happy_block();
    block.body.kernels = vec![make_kernel(0, 0, 0, 7)];
    let err = v.validate_body(block, &snap, &roots).unwrap_err();
    assert!(matches!(err, ValidationError::NoCoinbase));
}

#[test]
fn two_coinbase_outputs_rejected() {
    let (v, mut block, snap, roots) = happy_block();
    let second = make_output(1, 16, 17, 18);
    block.body.outputs = sort_outputs(vec![block.body.outputs[0].clone(), second]);
    let err = v.validate_body(block, &snap, &roots).unwrap_err();
    assert!(matches!(err, ValidationError::MoreThanOneCoinbase));
}

#[test]
fn wrong_emission_breaks_coinbase_value() {
    let (_, block, snap, roots) = happy_block();
    let v = BlockValidator::new(make_rules(4999, 1_000_000), false, 1);
    let err = v.validate_body(block, &snap, &roots).unwrap_err();
    assert!(matches!(err, ValidationError::CoinbaseValueMismatch));
}

#[test]
fn wrong_script_offset_rejected() {
    let (v, mut block, snap, _) = happy_block();
    block.header.total_script_offset = b32(sk(21).as_bytes());
    let roots = roots_of(&block.header);
    let err = v.validate_body(block, &snap, &roots).unwrap_err();
    assert!(matches!(err, ValidationError::ScriptOffsetMismatch));
}

#[test]
fn mismatched_kernel_root_named() {
    let (v, block, snap, mut roots) = happy_block();
    roots.kernel_mr = [9u8; 32];
    let err = v.validate_body(block, &snap, &roots).unwrap_err();
    assert!(matches!(err, ValidationError::MmrRootMismatch(MmrTree::Kernel)));
}

#[test]
fn mismatched_range_proof_root_named() {
    let (v, block, snap, mut roots) = happy_block();
    roots.range_proof_mr = [9u8; 32];
    let err = v.validate_body(block, &snap, &roots).unwrap_err();
    assert!(matches!(err, ValidationError::MmrRootMismatch(MmrTree::RangeProof)));
}

#[test]
fn malformed_commitment_refused_before_validation() {
    let (v, mut block, snap, roots) = happy_block();
    // 32 bytes of 0xff are not a canonical Ristretto encoding.
    block.body.outputs[0].commitment = [0xffu8; 32];
    match v.validate_body_checked(block, &snap, &roots) {
        Err(returned) => assert_eq!(returned.body.outputs[0].commitment, [0xffu8; 32]),
        Ok(_) => panic!("a malformed commitment must be refused"),
    }
}

#[test]
fn well_formed_block_passes_the_checked_entry() {
    let (v, block, snap, roots) = happy_block();
    let res = v.validate_body_checked(block, &snap, &roots);
    assert!(matches!(res, Ok(Ok(_))));
}

#[test]
fn accepted_block_balances_on_the_curve() {
    // The homomorphic balance of the accepted same-block-spend block,
    // recomputed independently: the sum of the output commitments, less the
    // spent commitment, equals the kernel excess plus the commitment to the
    // total kernel offset and the whole reward.
    let (v, block, snap, roots) = same_block_spend();
    let returned = v.validate_body(block, &snap, &roots).expect("accepted");

    let factory = ExtendedPedersenCommitmentFactory::default();
    let parse = |b: &[u8; 32]| RistrettoPublicKey::from_canonical_bytes(b).unwrap();
    let mut out_sum = RistrettoPublicKey::default();
    for o in &returned.body.outputs {
        out_sum = &out_sum + &parse(&o.commitment);
    }
    let mut in_sum = RistrettoPublicKey::default();
    for i in &returned.body.inputs {
        in_sum = &in_sum + &parse(&i.commitment);
    }
    let offset =
        RistrettoSecretKey::from_canonical_bytes(&returned.header.total_kernel_offset).unwrap();
    let mut kernel_sum =
        parse(&b32(factory.commit_value(&offset, 5000).as_bytes()));
    for k in &returned.body.kernels {
        kernel_sum = &kernel_sum + &parse(&k.excess);
    }
    assert_eq!(&out_sum - &in_sum, kernel_sum);
}

#[test]
fn accepted_block_has_one_coinbase_kernel_and_output() {
    let (v, block, snap, roots) = same_block_spend();
    let returned = v.validate_body(block, &snap, &roots).expect("accepted");
    let kernel_flags =
        returned.body.kernels.iter().filter(|k| k.features & 1 == 1).count();
    let output_flags =
        returned.body.outputs.iter().filter(|o| o.features & 1 == 1).count();
    assert_eq!(kernel_flags, 1);
    assert_eq!(output_flags, 1);
}

#[test]
fn accepted_body_is_sorted_and_preserved() {
    let (v, block, snap, roots) = same_block_spend();
    let before = body_bytes(&block);
    let returned = v.validate_body(block, &snap, &roots).expect("accepted");
    assert_eq!(body_bytes(&returned), before);
    for pair in returned.body.outputs.windows(2) {
        assert!(pair[0].encode() < pair[1].encode());
    }
    for pair in returned.body.inputs.windows(2) {
        assert!(pair[0].encode() < pair[1].encode());
    }
    for pair in returned.body.kernels.windows(2) {
        assert!(pair[0].encode() < pair[1].encode());
    }
}

#[test]
fn kernel_stage_reports_the_coinbase() {
    let (v, block, _, _) = happy_block();
    let header = block.header;
    let data = block_body_validator::kernels::validate_kernels(
        &v.rules,
        &header,
        block.body.kernels.clone(),
    )
    .expect("valid kernels");
    assert_eq!(data.coinbase_index, 0);
    assert_eq!(data.coinbase().excess, block.body.kernels[0].excess);
    assert_eq!(data.kernel_sum.fees, 0);
}

#[test]
fn output_stage_reports_the_coinbase() {
    let (_, block, snap, _) = same_block_spend();
    let data = block_body_validator::outputs::validate_outputs(
        block.body.outputs.clone(),
        false,
        &snap,
    )
    .expect("valid outputs");
    assert!(data.outputs[data.coinbase_index].features & 1 == 1);
    assert_eq!(data.outputs.len(), 2);
}

#[test]
fn input_stage_aggregates_script_keys() {
    let (_, block, snap, _) = same_block_spend();
    let hashes = block_body_validator::outputs::output_hashes(&block.body.outputs);
    let data = block_body_validator::inputs::validate_inputs(
        &block.header,
        hashes,
        block.body.inputs.clone(),
        &snap,
    )
    .expect("valid inputs");
    assert_eq!(data.aggregate_input_key, pubkey(&sk(11)));
    assert_eq!(data.commitment_sum, block.body.inputs[0].commitment);
}

#[test]
fn output_order_check_matches_encodings() {
    let (_, block, _, _) = same_block_spend();
    assert!(block_body_validator::outputs::is_all_unique_and_sorted(&block.body.outputs));
    let mut reversed = block.body.outputs.clone();
    reversed.reverse();
    assert!(!block_body_validator::outputs::is_all_unique_and_sorted(&reversed));
}
