//! Kernel validation: walks the kernels in order, verifying each excess
//! signature, enforcing the canonical order, the single-coinbase rule and
//! the timelock rule, and accumulating the kernel sum and the fees.

use vstd::prelude::*;

use crate::crypto::{commit_bytes, pedersen_commit, point_ok, pt_add, pt_add_bytes};
use crate::entities::{enc_kernel, BlockHeader, KernelSum, TransactionKernel};
use crate::errors::{err_model, SpecErr, ValidationError};
use crate::order::lex_lt;
use crate::rules::{spec_coinbase_and_fees, ConsensusRules};

verus! {

/// What kernel validation establishes on success: the aggregated kernel sum
/// (seeded with the commitment to the total kernel offset and the reward),
/// the total fees, and the index of the one coinbase kernel.
pub struct KernelOutcome {
    pub kernel_sum: Seq<u8>,
    pub fees: u64,
    pub coinbase_index: int,
}

/// An executable index option, at the spec level.
pub open spec fn opt_index(o: Option<usize>) -> Option<int> {
    match o {
        Option::None => Option::<int>::None,
        Option::Some(x) => Option::Some(x as int),
    }
}

/// The kernel stage from position `i` on, carrying the running aggregates.
/// Kernels must be strictly ascending; each signature must verify; at most
/// one kernel is the coinbase; after the walk, the largest timelock must be
/// at or below the block height and a coinbase must have been seen.
pub open spec fn kernel_stage(
    kernels: Seq<TransactionKernel>,
    height: u64,
    i: int,
    sum: Seq<u8>,
    fees: u64,
    max_lock: u64,
    cb: Option<int>,
) -> Result<KernelOutcome, SpecErr>
    decreases kernels.len() - i,
{
    if i < 0 || i >= kernels.len() {
        if max_lock > height {
            Err(SpecErr::MaturityError)
        } else {
            match cb {
                Option::None => Err(SpecErr::NoCoinbase),
                Option::Some(ci) => Ok(
                    KernelOutcome { kernel_sum: sum, fees, coinbase_index: ci },
                ),
            }
        }
    } else {
        let k = kernels[i];
        if i > 0 && !lex_lt(enc_kernel(kernels[i - 1]), enc_kernel(k)) {
            Err(SpecErr::UnsortedOrDuplicateKernel)
        } else if !k.spec_sig_ok() {
            Err(SpecErr::InvalidSignature)
        } else if k.spec_is_coinbase() && cb is Some {
            Err(SpecErr::MoreThanOneCoinbase)
        } else {
            kernel_stage(
                kernels,
                height,
                i + 1,
                pt_add_bytes(sum, k.excess@),
                vstd::wrapping::u64_specs::wrapping_add(fees, k.fee),
                if k.lock_height > max_lock {
                    k.lock_height
                } else {
                    max_lock
                },
                if k.spec_is_coinbase() {
                    Option::Some(i)
                } else {
                    cb
                },
            )
        }
    }
}

/// The whole kernel stage: the sum is seeded with the commitment to the
/// header's total kernel offset and the block reward.
pub open spec fn spec_validate_kernels(
    kernels: Seq<TransactionKernel>,
    height: u64,
    total_kernel_offset: Seq<u8>,
    total_reward: u64,
) -> Result<KernelOutcome, SpecErr> {
    kernel_stage(
        kernels,
        height,
        0,
        commit_bytes(total_kernel_offset, total_reward),
        0u64,
        0u64,
        Option::None,
    )
}

/// The kernels together with their aggregates, handed to the final checks.
pub struct KernelValidationData {
    pub kernels: Vec<TransactionKernel>,
    pub kernel_sum: KernelSum,
    pub coinbase_index: usize,
}

impl KernelValidationData {
    /// The one kernel that carries the coinbase flag.
    pub fn coinbase(&self) -> (r: &TransactionKernel)
        requires
            self.coinbase_index < self.kernels@.len(),
        ensures
            r == self.kernels@[self.coinbase_index as int],
    {
        &self.kernels[self.coinbase_index]
    }
}

/// Validates the kernels of a block, consuming them; on success returns them
/// with the aggregated kernel sum and the coinbase index.
#[verifier::loop_isolation(false)]
pub fn validate_kernels(
    rules: &ConsensusRules,
    header: &BlockHeader,
    kernels: Vec<TransactionKernel>,
) -> (r: Result<KernelValidationData, ValidationError>)
    requires
        rules.wf(),
        header.wf(),
        forall|i: int| 0 <= i < kernels@.len() ==> (#[trigger] kernels@[i]).wf(),
    ensures
        ({
            let outcome = spec_validate_kernels(
                kernels@,
                header.height,
                header.total_kernel_offset@,
                spec_coinbase_and_fees(*rules, header.height, kernels@),
            );
            match r {
                Ok(d) => {
                    &&& outcome matches Ok(o)
                    &&& d.kernels@ == kernels@
                    &&& d.kernel_sum.sum@ == o.kernel_sum
                    &&& d.kernel_sum.fees == o.fees
                    &&& d.coinbase_index == o.coinbase_index
                    &&& d.coinbase_index < kernels@.len()
                    &&& point_ok(d.kernel_sum.sum@)
                },
                Err(e) => outcome == Err::<KernelOutcome, SpecErr>(err_model(e)),
            }
        }),
{
    let height = header.height;
    let total_reward = rules.calculate_coinbase_and_fees(height, &kernels);
    let total_offset = pedersen_commit(&header.total_kernel_offset, total_reward);
    let mut kernel_sum = KernelSum { sum: total_offset, fees: 0 };
    let mut coinbase_index: Option<usize> = None;
    let mut max_lock: u64 = 0;
    let ghost goal = spec_validate_kernels(
        kernels@,
        height,
        header.total_kernel_offset@,
        total_reward,
    );
    let mut i: usize = 0;
    while i < kernels.len()
        invariant
            i <= kernels@.len(),
            forall|j: int| 0 <= j < kernels@.len() ==> (#[trigger] kernels@[j]).wf(),
            point_ok(kernel_sum.sum@),
            (match coinbase_index {
                Option::Some(ci) => ci < i,
                Option::None => true,
            }),
            goal == kernel_stage(
                kernels@,
                height,
                i as int,
                kernel_sum.sum@,
                kernel_sum.fees,
                max_lock,
                opt_index(coinbase_index),
            ),
        decreases kernels@.len() - i,
    {
        let k = &kernels[i];
        if i > 0 {
            let prev_enc = kernels[i - 1].encode();
            let cur_enc = k.encode();
            if !crate::order::bytes_lt(&prev_enc, &cur_enc) {
                return Err(ValidationError::UnsortedOrDuplicateKernel);
            }
        }
        if !k.verify_signature() {
            return Err(ValidationError::InvalidSignature);
        }
        if k.is_coinbase() {
            if coinbase_index.is_some() {
                return Err(ValidationError::MoreThanOneCoinbase);
            }
            coinbase_index = Some(i);
        }
        if k.lock_height > max_lock {
            max_lock = k.lock_height;
        }
        kernel_sum.fees = kernel_sum.fees.wrapping_add(k.fee);
        kernel_sum.sum = pt_add(&kernel_sum.sum, &k.excess);
        i = i + 1;
    }
    if max_lock > height {
        return Err(ValidationError::MaturityError);
    }
    match coinbase_index {
        None => Err(ValidationError::NoCoinbase),
        Some(ci) => Ok(KernelValidationData { kernels, kernel_sum, coinbase_index: ci }),
    }
}

} // verus!
