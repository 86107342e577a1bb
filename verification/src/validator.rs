//! The orchestrator: dissolves a block, runs the output, input and kernel
//! stages, then the final balance checks and the root comparison. Errors
//! surface in a fixed order: weight, output sortedness, then the outputs',
//! inputs' and kernels' own errors, then the three balance equations, then
//! the roots.

use vstd::prelude::*;

use crate::checks::{
    check_block_weight, check_coinbase_reward, check_kernel_sum, check_mmr_roots,
    check_script_offset, spec_coinbase_reward_ok, spec_kernel_sum_ok, spec_mmr_check,
    spec_script_offset_ok, spec_weight_ok,
};
use crate::entities::{AggregateBody, Block, MmrRoots};
use crate::errors::{err_model, SpecErr, ValidationError};
use crate::inputs::{spec_validate_inputs, validate_inputs};
use crate::kernels::{spec_validate_kernels, validate_kernels};
use crate::outputs::{
    is_all_unique_and_sorted, output_hashes, outputs_sorted, spec_output_hashes,
    spec_validate_outputs, validate_outputs,
};
use crate::rules::{spec_coinbase_and_fees, ConsensusRules};
use crate::snapshot::ChainSnapshot;

verus! {

/// The block-body validator: the consensus rules, the operator-controlled
/// range-proof bypass, and the number of workers the expensive output checks
/// may be sharded across. Sharding never changes the decision.
#[derive(Clone, Debug)]
pub struct BlockValidator {
    pub rules: ConsensusRules,
    pub bypass_range_proof_verification: bool,
    pub concurrency: usize,
}

impl BlockValidator {
    pub open spec fn wf(self) -> bool {
        self.rules.wf()
    }

    pub fn new(
        rules: ConsensusRules,
        bypass_range_proof_verification: bool,
        concurrency: usize,
    ) -> (r: BlockValidator)
        requires
            rules.wf(),
        ensures
            r.wf(),
            r.rules == rules,
            r.bypass_range_proof_verification == bypass_range_proof_verification,
            r.concurrency == concurrency,
    {
        BlockValidator { rules, bypass_range_proof_verification, concurrency }
    }

    /// The body decision, short of the weight and root checks: output order,
    /// then the three stages in outputs-inputs-kernels order, then the
    /// coinbase reward, script offset and kernel sum equations.
    pub open spec fn spec_validate_block_body(self, block: Block, snap: ChainSnapshot) -> Result<
        (),
        SpecErr,
    > {
        let header = block.header;
        let inputs = block.body.inputs@;
        let outputs = block.body.outputs@;
        let kernels = block.body.kernels@;
        if !outputs_sorted(outputs) {
            Err(SpecErr::UnsortedOrDuplicateOutput)
        } else {
            match spec_validate_outputs(outputs, self.bypass_range_proof_verification, snap) {
                Err(e) => Err(e),
                Ok(oo) => match spec_validate_inputs(
                    inputs,
                    header.height,
                    spec_output_hashes(outputs),
                    snap,
                ) {
                    Err(e) => Err(e),
                    Ok(io) => match spec_validate_kernels(
                        kernels,
                        header.height,
                        header.total_kernel_offset@,
                        spec_coinbase_and_fees(self.rules, header.height, kernels),
                    ) {
                        Err(e) => Err(e),
                        Ok(ko) => {
                            let reward_total = vstd::wrapping::u64_specs::wrapping_add(
                                self.rules.spec_emission(header.height),
                                ko.fees,
                            );
                            if !spec_coinbase_reward_ok(
                                outputs[oo.coinbase_index],
                                kernels[ko.coinbase_index],
                                reward_total,
                            ) {
                                Err(SpecErr::CoinbaseValueMismatch)
                            } else if !spec_script_offset_ok(
                                oo.aggregate_offset_pubkey,
                                io.aggregate_input_key,
                                header.total_script_offset@,
                            ) {
                                Err(SpecErr::ScriptOffsetMismatch)
                            } else if !spec_kernel_sum_ok(
                                ko.kernel_sum,
                                oo.commitment_sum,
                                io.commitment_sum,
                            ) {
                                Err(SpecErr::KernelSumMismatch)
                            } else {
                                Ok(())
                            }
                        },
                    },
                },
            }
        }
    }

    /// The decision short of the root comparison: the weight budget first,
    /// then the body decision.
    pub open spec fn spec_validate_body_before_roots(self, block: Block, snap: ChainSnapshot) -> Result<
        (),
        SpecErr,
    > {
        if !spec_weight_ok(block.body, self.rules.spec_constants_at(block.header.height)) {
            Err(SpecErr::BlockTooLarge)
        } else {
            self.spec_validate_block_body(block, snap)
        }
    }

    /// The whole decision: the weight budget first, then the body decision,
    /// then the root comparison.
    pub open spec fn spec_validate_body(
        self,
        block: Block,
        snap: ChainSnapshot,
        roots: MmrRoots,
    ) -> Result<(), SpecErr> {
        match self.spec_validate_body_before_roots(block, snap) {
            Err(e) => Err(e),
            Ok(()) => spec_mmr_check(block.header, roots),
        }
    }

    /// The weight budget and the body decision: everything that needs no
    /// database round trip. The caller recomputes the roots for the returned
    /// block and finishes with the root comparison.
    pub fn validate_body_before_roots(&self, block: Block, snap: &ChainSnapshot) -> (r: Result<
        Block,
        ValidationError,
    >)
        requires
            self.wf(),
            block.wf(),
        ensures
            match r {
                Ok(b) => {
                    &&& self.spec_validate_body_before_roots(block, *snap) is Ok
                    &&& b.header == block.header
                    &&& b.body.inputs@ == block.body.inputs@
                    &&& b.body.outputs@ == block.body.outputs@
                    &&& b.body.kernels@ == block.body.kernels@
                },
                Err(e) => self.spec_validate_body_before_roots(block, *snap) == Err::<
                    (),
                    SpecErr,
                >(err_model(e)),
            },
    {
        let cc = self.rules.constants_at(block.header.height);
        if !check_block_weight(&block.body, &cc) {
            return Err(ValidationError::BlockTooLarge);
        }
        self.validate_block_body(block, snap)
    }

    /// Validates the body of `block` against the snapshot: output order, the
    /// three stages, then the balance equations. On success the block is
    /// returned unchanged, its three sequences known sorted.
    pub fn validate_block_body(&self, block: Block, snap: &ChainSnapshot) -> (r: Result<
        Block,
        ValidationError,
    >)
        requires
            self.wf(),
            block.wf(),
        ensures
            match r {
                Ok(b) => {
                    &&& self.spec_validate_block_body(block, *snap) is Ok
                    &&& b.header == block.header
                    &&& b.body.inputs@ == block.body.inputs@
                    &&& b.body.outputs@ == block.body.outputs@
                    &&& b.body.kernels@ == block.body.kernels@
                },
                Err(e) => self.spec_validate_block_body(block, *snap) == Err::<(), SpecErr>(
                    err_model(e),
                ),
            },
    {
        let Block { header, body } = block;
        let AggregateBody { inputs, outputs, kernels } = body;

        // Output order cannot be checked inside the sharded stage, so it is
        // checked here first.
        if !is_all_unique_and_sorted(&outputs) {
            return Err(ValidationError::UnsortedOrDuplicateOutput);
        }
        let hashes = output_hashes(&outputs);

        let outputs_result = match validate_outputs(
            outputs,
            self.bypass_range_proof_verification,
            snap,
        ) {
            Ok(d) => d,
            Err(e) => {
                return Err(e);
            },
        };
        let inputs_result = match validate_inputs(&header, hashes, inputs, snap) {
            Ok(d) => d,
            Err(e) => {
                return Err(e);
            },
        };
        let kernels_result = match validate_kernels(&self.rules, &header, kernels) {
            Ok(d) => d,
            Err(e) => {
                return Err(e);
            },
        };

        let reward_total = self.rules.emission(header.height).wrapping_add(
            kernels_result.kernel_sum.fees,
        );
        if !check_coinbase_reward(
            outputs_result.coinbase(),
            kernels_result.coinbase(),
            reward_total,
        ) {
            return Err(ValidationError::CoinbaseValueMismatch);
        }
        if !check_script_offset(
            &outputs_result.aggregate_offset_pubkey,
            &inputs_result.aggregate_input_key,
            &header.total_script_offset,
        ) {
            return Err(ValidationError::ScriptOffsetMismatch);
        }
        if !check_kernel_sum(
            &kernels_result.kernel_sum,
            &outputs_result.commitment_sum,
            &inputs_result.commitment_sum,
        ) {
            return Err(ValidationError::KernelSumMismatch);
        }

        Ok(
            Block {
                header,
                body: AggregateBody {
                    inputs: inputs_result.inputs,
                    outputs: outputs_result.outputs,
                    kernels: kernels_result.kernels,
                },
            },
        )
    }

    /// Validates a block body end to end: the weight budget, the body
    /// decision, then the recomputed roots against the header. On success
    /// the canonicalised block is returned; every failure carries the first
    /// error in the fixed order.
    pub fn validate_body(&self, block: Block, snap: &ChainSnapshot, roots: &MmrRoots) -> (r: Result<
        Block,
        ValidationError,
    >)
        requires
            self.wf(),
            block.wf(),
        ensures
            match r {
                Ok(b) => {
                    &&& self.spec_validate_body(block, *snap, *roots) is Ok
                    &&& b.header == block.header
                    &&& b.body.inputs@ == block.body.inputs@
                    &&& b.body.outputs@ == block.body.outputs@
                    &&& b.body.kernels@ == block.body.kernels@
                },
                Err(e) => self.spec_validate_body(block, *snap, *roots) == Err::<(), SpecErr>(
                    err_model(e),
                ),
            },
    {
        let block = match self.validate_body_before_roots(block, snap) {
            Ok(b) => b,
            Err(e) => {
                return Err(e);
            },
        };
        match check_mmr_roots(&block.header, roots) {
            Ok(()) => Ok(block),
            Err(e) => Err(e),
        }
    }

    /// Validates a block whose encodings have not been established yet: the
    /// well-formedness of every curve-point and scalar field is checked
    /// first, and a block that fails it is handed back unchanged. Otherwise
    /// the result is that of the validation itself.
    pub fn validate_body_checked(
        &self,
        block: Block,
        snap: &ChainSnapshot,
        roots: &MmrRoots,
    ) -> (r: Result<Result<Block, ValidationError>, Block>)
        requires
            self.wf(),
        ensures
            match r {
                Ok(res) => {
                    &&& block.wf()
                    &&& match res {
                        Ok(b) => {
                            &&& self.spec_validate_body(block, *snap, *roots) is Ok
                            &&& b.header == block.header
                            &&& b.body.inputs@ == block.body.inputs@
                            &&& b.body.outputs@ == block.body.outputs@
                            &&& b.body.kernels@ == block.body.kernels@
                        },
                        Err(e) => self.spec_validate_body(block, *snap, *roots) == Err::<
                            (),
                            SpecErr,
                        >(err_model(e)),
                    }
                },
                Err(b) => !block.wf() && b == block,
            },
    {
        if block.check_wf() {
            Ok(self.validate_body(block, snap, roots))
        } else {
            Err(block)
        }
    }
}

} // verus!
