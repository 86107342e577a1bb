//! Output validation: checks each output's metadata signature and range
//! proof (unless bypassed), enforces the single-coinbase rule and the
//! duplicate-output rule against the chain snapshot, and aggregates the
//! sender-offset keys (coinbase excluded) and the commitments.
//!
//! The expensive per-output checks may be sharded across workers; the
//! decision and the aggregates are those of the walk in original index
//! order, to which any sharding must reduce.

use vstd::prelude::*;

use crate::crypto::{point_ok, pt_add, pt_add_bytes, pt_identity, zero_32};
use crate::entities::{enc_output, TransactionOutput};
use crate::errors::{err_model, SpecErr, ValidationError};
use crate::kernels::opt_index;
use crate::order::lex_lt;
use crate::snapshot::ChainSnapshot;

verus! {

/// What output validation establishes on success: the aggregated
/// sender-offset key of the non-coinbase outputs, the sum of all output
/// commitments, and the index of the one coinbase output.
pub struct OutputOutcome {
    pub aggregate_offset_pubkey: Seq<u8>,
    pub commitment_sum: Seq<u8>,
    pub coinbase_index: int,
}

/// The identity hashes of a sequence of outputs, in order.
pub open spec fn spec_output_hashes(s: Seq<TransactionOutput>) -> Seq<Seq<u8>> {
    s.map_values(|o: TransactionOutput| o.spec_hash())
}

/// The output stage from position `i` on. At most one output is the
/// coinbase; every metadata signature must verify; every range proof must
/// verify unless verification is bypassed; no output may already exist on
/// the chain; the sender-offset keys of the non-coinbase outputs and the
/// commitments of all outputs are aggregated.
pub open spec fn output_stage(
    outputs: Seq<TransactionOutput>,
    bypass_range_proofs: bool,
    snap: ChainSnapshot,
    i: int,
    agg_offset: Seq<u8>,
    commit_sum: Seq<u8>,
    cb: Option<int>,
) -> Result<OutputOutcome, SpecErr>
    decreases outputs.len() - i,
{
    if i < 0 || i >= outputs.len() {
        match cb {
            Option::None => Err(SpecErr::NoCoinbase),
            Option::Some(ci) => Ok(
                OutputOutcome {
                    aggregate_offset_pubkey: agg_offset,
                    commitment_sum: commit_sum,
                    coinbase_index: ci,
                },
            ),
        }
    } else {
        let o = outputs[i];
        if o.spec_is_coinbase() && cb is Some {
            Err(SpecErr::MoreThanOneCoinbase)
        } else if !o.spec_meta_sig_ok() {
            Err(SpecErr::InvalidSignature)
        } else if !bypass_range_proofs && !o.spec_range_proof_ok() {
            Err(SpecErr::InvalidRangeProof)
        } else if snap.spec_has_txo(o.spec_hash()) {
            Err(SpecErr::ContainsTxO)
        } else {
            output_stage(
                outputs,
                bypass_range_proofs,
                snap,
                i + 1,
                if o.spec_is_coinbase() {
                    agg_offset
                } else {
                    pt_add_bytes(agg_offset, o.sender_offset_public_key@)
                },
                pt_add_bytes(commit_sum, o.commitment@),
                if o.spec_is_coinbase() {
                    Option::Some(i)
                } else {
                    cb
                },
            )
        }
    }
}

/// The whole output stage: both aggregates start at the identity point.
pub open spec fn spec_validate_outputs(
    outputs: Seq<TransactionOutput>,
    bypass_range_proofs: bool,
    snap: ChainSnapshot,
) -> Result<OutputOutcome, SpecErr> {
    output_stage(outputs, bypass_range_proofs, snap, 0, zero_32(), zero_32(), Option::None)
}

/// The outputs together with their aggregates, handed to the final checks.
pub struct OutputValidationData {
    pub outputs: Vec<TransactionOutput>,
    pub commitment_sum: [u8; 32],
    pub aggregate_offset_pubkey: [u8; 32],
    pub coinbase_index: usize,
}

impl OutputValidationData {
    /// The one output that carries the coinbase flag.
    pub fn coinbase(&self) -> (r: &TransactionOutput)
        requires
            self.coinbase_index < self.outputs@.len(),
        ensures
            r == self.outputs@[self.coinbase_index as int],
    {
        &self.outputs[self.coinbase_index]
    }
}

/// Whether a sequence of outputs is strictly ascending under the canonical
/// order, with no duplicates.
pub open spec fn outputs_sorted(s: Seq<TransactionOutput>) -> bool {
    forall|i: int|
        0 <= i && i + 1 < s.len() ==> lex_lt(enc_output(#[trigger] s[i]), enc_output(s[i + 1]))
}

/// Checks that the outputs are strictly ascending under the canonical order.
#[verifier::loop_isolation(false)]
pub fn is_all_unique_and_sorted(outputs: &Vec<TransactionOutput>) -> (r: bool)
    ensures
        r == outputs_sorted(outputs@),
{
    if outputs.len() == 0 {
        return true;
    }
    let mut i: usize = 0;
    let mut prev_enc = outputs[0].encode();
    while i + 1 < outputs.len()
        invariant
            i + 1 <= outputs@.len(),
            prev_enc@ == enc_output(outputs@[i as int]),
            forall|j: int|
                0 <= j && j + 1 <= i ==> lex_lt(
                    enc_output(#[trigger] outputs@[j]),
                    enc_output(outputs@[j + 1]),
                ),
        decreases outputs@.len() - i,
    {
        let cur_enc = outputs[i + 1].encode();
        if !crate::order::bytes_lt(&prev_enc, &cur_enc) {
            return false;
        }
        prev_enc = cur_enc;
        i = i + 1;
    }
    true
}

/// Computes the identity hashes of the outputs, in order, for the input
/// stage's same-block-spend resolution.
#[verifier::loop_isolation(false)]
pub fn output_hashes(outputs: &Vec<TransactionOutput>) -> (r: Vec<[u8; 32]>)
    ensures
        crate::errors::hashes_view(r@) == spec_output_hashes(outputs@),
{
    let mut hashes: Vec<[u8; 32]> = Vec::new();
    let mut i: usize = 0;
    while i < outputs.len()
        invariant
            i <= outputs@.len(),
            crate::errors::hashes_view(hashes@) =~= spec_output_hashes(outputs@.take(i as int)),
        decreases outputs@.len() - i,
    {
        hashes.push(outputs[i].hash());
        proof {
            assert(crate::errors::hashes_view(hashes@) =~= crate::errors::hashes_view(
                hashes@.drop_last(),
            ).push(outputs@[i as int].spec_hash()));
            assert(spec_output_hashes(outputs@.take(i + 1)) =~= spec_output_hashes(
                outputs@.take(i as int),
            ).push(outputs@[i as int].spec_hash()));
        }
        i = i + 1;
    }
    proof {
        assert(outputs@.take(outputs@.len() as int) =~= outputs@);
    }
    hashes
}

/// Validates the outputs of a block against the chain snapshot, consuming
/// them; on success returns them with the aggregated sender-offset key, the
/// commitment sum and the coinbase index.
#[verifier::loop_isolation(false)]
pub fn validate_outputs(
    outputs: Vec<TransactionOutput>,
    bypass_range_proofs: bool,
    snap: &ChainSnapshot,
) -> (r: Result<OutputValidationData, ValidationError>)
    requires
        forall|i: int| 0 <= i < outputs@.len() ==> (#[trigger] outputs@[i]).wf(),
    ensures
        ({
            let outcome = spec_validate_outputs(outputs@, bypass_range_proofs, *snap);
            match r {
                Ok(d) => {
                    &&& outcome matches Ok(o)
                    &&& d.outputs@ == outputs@
                    &&& d.aggregate_offset_pubkey@ == o.aggregate_offset_pubkey
                    &&& d.commitment_sum@ == o.commitment_sum
                    &&& d.coinbase_index == o.coinbase_index
                    &&& d.coinbase_index < outputs@.len()
                    &&& point_ok(d.aggregate_offset_pubkey@)
                    &&& point_ok(d.commitment_sum@)
                },
                Err(e) => outcome == Err::<OutputOutcome, SpecErr>(err_model(e)),
            }
        }),
{
    let mut aggregate_offset_pubkey = pt_identity();
    let mut commitment_sum = pt_identity();
    let mut coinbase_index: Option<usize> = None;
    let ghost goal = spec_validate_outputs(outputs@, bypass_range_proofs, *snap);
    let mut i: usize = 0;
    while i < outputs.len()
        invariant
            i <= outputs@.len(),
            point_ok(aggregate_offset_pubkey@),
            point_ok(commitment_sum@),
            (match coinbase_index {
                Option::Some(ci) => ci < i,
                Option::None => true,
            }),
            goal == output_stage(
                outputs@,
                bypass_range_proofs,
                *snap,
                i as int,
                aggregate_offset_pubkey@,
                commitment_sum@,
                opt_index(coinbase_index),
            ),
        decreases outputs@.len() - i,
    {
        let o = &outputs[i];
        proof {
            assert(outputs@[i as int].wf());
        }
        if o.is_coinbase() {
            if coinbase_index.is_some() {
                return Err(ValidationError::MoreThanOneCoinbase);
            }
        }
        if !o.verify_metadata_signature() {
            return Err(ValidationError::InvalidSignature);
        }
        if !bypass_range_proofs {
            if !o.verify_range_proof() {
                return Err(ValidationError::InvalidRangeProof);
            }
        }
        let h = o.hash();
        if snap.has_txo(&h) {
            return Err(ValidationError::ContainsTxO);
        }
        if o.is_coinbase() {
            coinbase_index = Some(i);
        } else {
            aggregate_offset_pubkey = pt_add(&aggregate_offset_pubkey, &o.sender_offset_public_key);
        }
        commitment_sum = pt_add(&commitment_sum, &o.commitment);
        i = i + 1;
    }
    match coinbase_index {
        None => Err(ValidationError::NoCoinbase),
        Some(ci) => Ok(
            OutputValidationData {
                outputs,
                commitment_sum,
                aggregate_offset_pubkey,
                coinbase_index: ci,
            },
        ),
    }
}

} // verus!
