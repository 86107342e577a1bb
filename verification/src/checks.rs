//! The final whole-block checks: the weight budget, the coinbase reward
//! equation, the script-offset equation, the Pedersen balance equation and
//! the comparison of the header's Merkle-mountain-range roots with the
//! recomputed ones.

use vstd::prelude::*;

use crate::crypto::{
    commit_bytes, pedersen_commit, point_ok, pt_identity, pt_sub, pt_sub_bytes, pubkey_bytes,
    pubkey_of_scalar, scalar_check, scalar_ok, zero_32,
};
use crate::entities::{
    bytes32_eq, AggregateBody, BlockHeader, KernelSum, MmrRoots, TransactionKernel,
    TransactionOutput,
};
use crate::errors::{err_model, MmrTree, SpecErr, ValidationError};
use crate::rules::ConsensusConstants;

verus! {

/// The weight of a body: the weighted sum of its entity counts.
pub open spec fn spec_block_weight(body: AggregateBody, cc: ConsensusConstants) -> int {
    body.inputs@.len() * cc.input_weight + body.outputs@.len() * cc.output_weight
        + body.kernels@.len() * cc.kernel_weight
}

/// Whether a body fits the active weight budget.
pub open spec fn spec_weight_ok(body: AggregateBody, cc: ConsensusConstants) -> bool {
    spec_block_weight(body, cc) <= cc.max_block_weight
}

/// Checks the body against the active weight budget.
pub fn check_block_weight(body: &AggregateBody, cc: &ConsensusConstants) -> (r: bool)
    ensures
        r == spec_weight_ok(*body, *cc),
{
    let n_in: u128 = body.inputs.len() as u128;
    let n_out: u128 = body.outputs.len() as u128;
    let n_k: u128 = body.kernels.len() as u128;
    let w_in: u128 = cc.input_weight as u128;
    let w_out: u128 = cc.output_weight as u128;
    let w_k: u128 = cc.kernel_weight as u128;
    proof {
        assert(n_in * w_in <= 0xffffffffffffffff * 0xffffffffffffffff) by (nonlinear_arith)
            requires
                n_in <= 0xffffffffffffffff,
                w_in <= 0xffffffffffffffff,
        ;
        assert(n_out * w_out <= 0xffffffffffffffff * 0xffffffffffffffff) by (nonlinear_arith)
            requires
                n_out <= 0xffffffffffffffff,
                w_out <= 0xffffffffffffffff,
        ;
        assert(n_k * w_k <= 0xffffffffffffffff * 0xffffffffffffffff) by (nonlinear_arith)
            requires
                n_k <= 0xffffffffffffffff,
                w_k <= 0xffffffffffffffff,
        ;
    }
    let a: u128 = n_in * w_in;
    let b: u128 = n_out * w_out;
    let c: u128 = n_k * w_k;
    match a.checked_add(b) {
        None => false,
        Some(ab) => match ab.checked_add(c) {
            None => false,
            Some(total) => total <= cc.max_block_weight as u128,
        },
    }
}

/// The coinbase reward equation: the coinbase output's commitment, less the
/// coinbase kernel's excess, commits to exactly the reward under a zero
/// blinding.
pub open spec fn spec_coinbase_reward_ok(
    cb_output: TransactionOutput,
    cb_kernel: TransactionKernel,
    reward_total: u64,
) -> bool {
    scalar_ok(zero_32()) && pt_sub_bytes(cb_output.commitment@, cb_kernel.excess@) == commit_bytes(
        zero_32(),
        reward_total,
    )
}

/// Checks the coinbase reward equation.
pub fn check_coinbase_reward(
    cb_output: &TransactionOutput,
    cb_kernel: &TransactionKernel,
    reward_total: u64,
) -> (r: bool)
    requires
        cb_output.wf(),
        cb_kernel.wf(),
    ensures
        r == spec_coinbase_reward_ok(*cb_output, *cb_kernel, reward_total),
{
    let zero = pt_identity();
    if !scalar_check(&zero) {
        return false;
    }
    let lhs = pt_sub(&cb_output.commitment, &cb_kernel.excess);
    let rhs = pedersen_commit(&zero, reward_total);
    bytes32_eq(&lhs, &rhs)
}

/// The script-offset equation: the aggregate sender-offset key, less the
/// aggregate script key, equals the header's script offset times the base
/// point.
pub open spec fn spec_script_offset_ok(
    aggregate_offset_pubkey: Seq<u8>,
    aggregate_input_key: Seq<u8>,
    total_script_offset: Seq<u8>,
) -> bool {
    pt_sub_bytes(aggregate_offset_pubkey, aggregate_input_key) == pubkey_bytes(total_script_offset)
}

/// Checks the script-offset equation.
pub fn check_script_offset(
    aggregate_offset_pubkey: &[u8; 32],
    aggregate_input_key: &[u8; 32],
    total_script_offset: &[u8; 32],
) -> (r: bool)
    requires
        point_ok(aggregate_offset_pubkey@),
        point_ok(aggregate_input_key@),
        scalar_ok(total_script_offset@),
    ensures
        r == spec_script_offset_ok(
            aggregate_offset_pubkey@,
            aggregate_input_key@,
            total_script_offset@,
        ),
{
    let lhs = pt_sub(aggregate_offset_pubkey, aggregate_input_key);
    let rhs = pubkey_of_scalar(total_script_offset);
    bytes32_eq(&lhs, &rhs)
}

/// The Pedersen balance equation: the sum of the output commitments, less
/// the sum of the spent commitments, equals the kernel sum (which was seeded
/// with the commitment to the total kernel offset and the reward).
pub open spec fn spec_kernel_sum_ok(
    kernel_sum: Seq<u8>,
    output_commitment_sum: Seq<u8>,
    input_commitment_sum: Seq<u8>,
) -> bool {
    pt_sub_bytes(output_commitment_sum, input_commitment_sum) == kernel_sum
}

/// Checks the Pedersen balance equation.
pub fn check_kernel_sum(
    kernel_sum: &KernelSum,
    output_commitment_sum: &[u8; 32],
    input_commitment_sum: &[u8; 32],
) -> (r: bool)
    requires
        point_ok(output_commitment_sum@),
        point_ok(input_commitment_sum@),
    ensures
        r == spec_kernel_sum_ok(
            kernel_sum.sum@,
            output_commitment_sum@,
            input_commitment_sum@,
        ),
{
    let lhs = pt_sub(output_commitment_sum, input_commitment_sum);
    bytes32_eq(&lhs, &kernel_sum.sum)
}

/// Field-by-field comparison of the recomputed roots with the header's, in a
/// fixed order; the first mismatch names its tree.
pub open spec fn spec_mmr_check(header: BlockHeader, roots: MmrRoots) -> Result<(), SpecErr> {
    if roots.output_mr@ != header.output_mr@ {
        Err(SpecErr::MmrRootMismatch(MmrTree::Output))
    } else if roots.kernel_mr@ != header.kernel_mr@ {
        Err(SpecErr::MmrRootMismatch(MmrTree::Kernel))
    } else if roots.input_mr@ != header.input_mr@ {
        Err(SpecErr::MmrRootMismatch(MmrTree::Input))
    } else if roots.range_proof_mr@ != header.range_proof_mr@ {
        Err(SpecErr::MmrRootMismatch(MmrTree::RangeProof))
    } else {
        Ok(())
    }
}

/// Compares the recomputed roots with the header's.
pub fn check_mmr_roots(header: &BlockHeader, roots: &MmrRoots) -> (r: Result<(), ValidationError>)
    ensures
        match r {
            Ok(()) => spec_mmr_check(*header, *roots) is Ok,
            Err(e) => spec_mmr_check(*header, *roots) == Err::<(), SpecErr>(err_model(e)),
        },
{
    if !bytes32_eq(&roots.output_mr, &header.output_mr) {
        return Err(ValidationError::MmrRootMismatch(MmrTree::Output));
    }
    if !bytes32_eq(&roots.kernel_mr, &header.kernel_mr) {
        return Err(ValidationError::MmrRootMismatch(MmrTree::Kernel));
    }
    if !bytes32_eq(&roots.input_mr, &header.input_mr) {
        return Err(ValidationError::MmrRootMismatch(MmrTree::Input));
    }
    if !bytes32_eq(&roots.range_proof_mr, &header.range_proof_mr) {
        return Err(ValidationError::MmrRootMismatch(MmrTree::RangeProof));
    }
    Ok(())
}

} // verus!
