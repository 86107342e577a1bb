//! The validator's error surface, and its spec-level mirror.
//!
//! Every failure of `validate_body` is one of these tags; the spec-level
//! mirror `SpecErr` carries byte sequences instead of vectors so that the
//! decision functions can be written as specification functions.

use vstd::prelude::*;

verus! {

/// Which of the four header roots failed to match.
#[derive(Clone, Copy, Debug, PartialEq, Eq, Structural)]
pub enum MmrTree {
    Input,
    Output,
    Kernel,
    RangeProof,
}

/// A reason a block body was rejected.
#[derive(Clone, Debug)]
pub enum ValidationError {
    /// The body's weight exceeds the active per-block budget.
    BlockTooLarge,
    /// The inputs are not strictly ascending under the canonical order.
    UnsortedOrDuplicateInput,
    /// The outputs are not strictly ascending under the canonical order.
    UnsortedOrDuplicateOutput,
    /// The kernels are not strictly ascending under the canonical order.
    UnsortedOrDuplicateKernel,
    /// An input is not yet spendable at the block height.
    InputMaturity,
    /// Inputs reference output hashes that exist neither in the chain
    /// snapshot nor among the block's own outputs; the list is complete.
    UnknownInputs(Vec<[u8; 32]>),
    /// A kernel excess signature or an output metadata signature failed.
    InvalidSignature,
    /// An output's range proof failed to verify.
    InvalidRangeProof,
    /// An input's script failed to run or its signature failed to verify.
    InvalidScript,
    /// A kernel timelock exceeds the block height.
    MaturityError,
    /// More than one kernel, or more than one output, carries the coinbase
    /// flag.
    MoreThanOneCoinbase,
    /// No kernel, or no output, carries the coinbase flag.
    NoCoinbase,
    /// The coinbase output does not commit to the block subsidy plus fees.
    CoinbaseValueMismatch,
    /// The aggregate sender-offset and script keys do not reconcile with the
    /// header's script offset.
    ScriptOffsetMismatch,
    /// The Pedersen balance equation does not hold.
    KernelSumMismatch,
    /// An output with the same identity hash already exists on the chain.
    ContainsTxO,
    /// One of the four recomputed roots differs from the header.
    MmrRootMismatch(MmrTree),
    /// A snapshot or lookup failure, surfaced by the caller's database.
    DatabaseError(String),
    /// A worker crashed; surfaced by the caller's runtime.
    WorkerPanic,
}

/// The spec-level mirror of `ValidationError`, over byte sequences.
pub enum SpecErr {
    BlockTooLarge,
    UnsortedOrDuplicateInput,
    UnsortedOrDuplicateOutput,
    UnsortedOrDuplicateKernel,
    InputMaturity,
    UnknownInputs(Seq<Seq<u8>>),
    InvalidSignature,
    InvalidRangeProof,
    InvalidScript,
    MaturityError,
    MoreThanOneCoinbase,
    NoCoinbase,
    CoinbaseValueMismatch,
    ScriptOffsetMismatch,
    KernelSumMismatch,
    ContainsTxO,
    MmrRootMismatch(MmrTree),
    DatabaseError,
    WorkerPanic,
}

/// The sequence of views of a vector of 32-byte hashes.
pub open spec fn hashes_view(v: Seq<[u8; 32]>) -> Seq<Seq<u8>> {
    v.map_values(|a: [u8; 32]| a@)
}

/// What each executable error states, at the spec level.
pub open spec fn err_model(e: ValidationError) -> SpecErr {
    match e {
        ValidationError::BlockTooLarge => SpecErr::BlockTooLarge,
        ValidationError::UnsortedOrDuplicateInput => SpecErr::UnsortedOrDuplicateInput,
        ValidationError::UnsortedOrDuplicateOutput => SpecErr::UnsortedOrDuplicateOutput,
        ValidationError::UnsortedOrDuplicateKernel => SpecErr::UnsortedOrDuplicateKernel,
        ValidationError::InputMaturity => SpecErr::InputMaturity,
        ValidationError::UnknownInputs(v) => SpecErr::UnknownInputs(hashes_view(v@)),
        ValidationError::InvalidSignature => SpecErr::InvalidSignature,
        ValidationError::InvalidRangeProof => SpecErr::InvalidRangeProof,
        ValidationError::InvalidScript => SpecErr::InvalidScript,
        ValidationError::MaturityError => SpecErr::MaturityError,
        ValidationError::MoreThanOneCoinbase => SpecErr::MoreThanOneCoinbase,
        ValidationError::NoCoinbase => SpecErr::NoCoinbase,
        ValidationError::CoinbaseValueMismatch => SpecErr::CoinbaseValueMismatch,
        ValidationError::ScriptOffsetMismatch => SpecErr::ScriptOffsetMismatch,
        ValidationError::KernelSumMismatch => SpecErr::KernelSumMismatch,
        ValidationError::ContainsTxO => SpecErr::ContainsTxO,
        ValidationError::MmrRootMismatch(t) => SpecErr::MmrRootMismatch(t),
        ValidationError::DatabaseError(_) => SpecErr::DatabaseError,
        ValidationError::WorkerPanic => SpecErr::WorkerPanic,
    }
}

} // verus!
