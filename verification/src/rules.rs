//! Consensus constants, consumed as a read-only parameter object: the weight
//! budget per block and the emission schedule, each effective from a height.

use vstd::prelude::*;

use crate::entities::TransactionKernel;

verus! {

/// The constants active from `effective_from_height` on: per-entity weights,
/// the block weight budget, and the block subsidy.
#[derive(Clone, Copy, Debug)]
pub struct ConsensusConstants {
    pub effective_from_height: u64,
    pub max_block_weight: u64,
    pub input_weight: u64,
    pub output_weight: u64,
    pub kernel_weight: u64,
    pub block_reward: u64,
}

/// The full schedule: one entry per epoch, the first effective from the
/// genesis height, strictly ascending by effective height.
#[derive(Clone, Debug)]
pub struct ConsensusRules {
    pub epochs: Vec<ConsensusConstants>,
}

impl ConsensusRules {
    pub open spec fn wf(self) -> bool {
        &&& self.epochs@.len() > 0
        &&& self.epochs@[0].effective_from_height == 0
        &&& forall|i: int|
            0 <= i && i + 1 < self.epochs@.len() ==> #[trigger] self.epochs@[
                i
            ].effective_from_height < self.epochs@[i + 1].effective_from_height
    }

    /// Builds a schedule after checking that the epochs are well-formed;
    /// returns nothing otherwise.
    pub fn new(epochs: Vec<ConsensusConstants>) -> (r: Option<ConsensusRules>)
        ensures
            match r {
                Some(rules) => rules.wf() && rules.epochs@ == epochs@,
                None => !(ConsensusRules { epochs }).wf(),
            },
    {
        if epochs.len() == 0 {
            return None;
        }
        if epochs[0].effective_from_height != 0 {
            return None;
        }
        let mut i: usize = 0;
        while i < epochs.len() - 1
            invariant
                epochs@.len() > 0,
                i < epochs@.len(),
                forall|j: int|
                    0 <= j && j + 1 <= i ==> #[trigger] epochs@[j].effective_from_height
                        < epochs@[j + 1].effective_from_height,
            decreases epochs@.len() - i,
        {
            if epochs[i].effective_from_height >= epochs[i + 1].effective_from_height {
                return None;
            }
            i = i + 1;
        }
        Some(ConsensusRules { epochs })
    }

    /// The index of the epoch active at `height`: the last entry whose
    /// effective height is at or below it.
    pub open spec fn spec_active_epoch(s: Seq<ConsensusConstants>, height: u64) -> int
        decreases s.len(),
    {
        if s.len() <= 1 {
            0
        } else if s.last().effective_from_height <= height {
            s.len() - 1
        } else {
            Self::spec_active_epoch(s.drop_last(), height)
        }
    }

    /// The constants active at `height`.
    pub open spec fn spec_constants_at(self, height: u64) -> ConsensusConstants {
        self.epochs@[Self::spec_active_epoch(self.epochs@, height)]
    }

    pub fn constants_at(&self, height: u64) -> (r: ConsensusConstants)
        requires
            self.wf(),
        ensures
            r == self.spec_constants_at(height),
    {
        let mut i: usize = self.epochs.len() - 1;
        proof {
            assert(self.epochs@.take(self.epochs@.len() as int) =~= self.epochs@);
        }
        while i > 0
            invariant
                i < self.epochs@.len(),
                Self::spec_active_epoch(self.epochs@, height) == Self::spec_active_epoch(
                    self.epochs@.take(i + 1),
                    height,
                ),
            decreases i,
        {
            if self.epochs[i].effective_from_height <= height {
                proof {
                    assert(self.epochs@.take(i + 1).last() == self.epochs@[i as int]);
                }
                return self.epochs[i];
            }
            proof {
                assert(self.epochs@.take(i + 1).drop_last() =~= self.epochs@.take(i as int));
            }
            i = i - 1;
        }
        proof {
            assert(Self::spec_active_epoch(self.epochs@.take(1), height) == 0);
        }
        self.epochs[0]
    }

    /// The block subsidy at `height` under the active epoch.
    pub open spec fn spec_emission(self, height: u64) -> u64 {
        self.spec_constants_at(height).block_reward
    }

    pub fn emission(&self, height: u64) -> (r: u64)
        requires
            self.wf(),
        ensures
            r == self.spec_emission(height),
    {
        self.constants_at(height).block_reward
    }
}

/// The sum of the kernels' fees, wrapping on 64-bit overflow.
pub open spec fn sum_fees(kernels: Seq<TransactionKernel>) -> u64
    decreases kernels.len(),
{
    if kernels.len() == 0 {
        0u64
    } else {
        vstd::wrapping::u64_specs::wrapping_add(sum_fees(kernels.drop_last()), kernels.last().fee)
    }
}

/// The block subsidy plus the sum of the kernels' fees, wrapping on 64-bit
/// overflow.
pub open spec fn spec_coinbase_and_fees(
    rules: ConsensusRules,
    height: u64,
    kernels: Seq<TransactionKernel>,
) -> u64 {
    vstd::wrapping::u64_specs::wrapping_add(rules.spec_emission(height), sum_fees(kernels))
}

impl ConsensusRules {
    /// The total reward owed to the coinbase at `height` for a block with
    /// these kernels.
    pub fn calculate_coinbase_and_fees(&self, height: u64, kernels: &Vec<TransactionKernel>) -> (r:
        u64)
        requires
            self.wf(),
        ensures
            r == spec_coinbase_and_fees(*self, height, kernels@),
    {
        let mut fees: u64 = 0;
        let mut i: usize = 0;
        while i < kernels.len()
            invariant
                i <= kernels@.len(),
                fees == sum_fees(kernels@.take(i as int)),
            decreases kernels@.len() - i,
        {
            proof {
                assert(kernels@.take(i + 1).drop_last() =~= kernels@.take(i as int));
                assert(kernels@.take(i + 1).last() == kernels@[i as int]);
            }
            fees = fees.wrapping_add(kernels[i].fee);
            i = i + 1;
        }
        proof {
            assert(kernels@.take(kernels@.len() as int) =~= kernels@);
        }
        self.emission(height).wrapping_add(fees)
    }
}

} // verus!
