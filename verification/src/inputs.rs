//! Input validation: walks the inputs in order, enforcing the canonical
//! order and maturity, resolving each spent output against the chain
//! snapshot or the block's own outputs, running the input scripts, and
//! aggregating the script keys and the spent commitments.
//!
//! Once an unknown input has been seen the aggregates would be meaningless,
//! so aggregation and script running stop, but the walk continues so that
//! the complete list of missing output hashes is reported. A script failure
//! after the first missing input is therefore not surfaced.

use vstd::prelude::*;

use crate::crypto::{point_ok, pt_add, pt_add_bytes, pt_identity, zero_32};
use crate::entities::{enc_input, BlockHeader, TransactionInput};
use crate::errors::{err_model, hashes_view, SpecErr, ValidationError};
use crate::order::lex_lt;
use crate::snapshot::{hashes_contain, ChainSnapshot};

verus! {

/// What input validation establishes on success: the aggregated script
/// public key and the sum of the spent commitments.
pub struct InputOutcome {
    pub aggregate_input_key: Seq<u8>,
    pub commitment_sum: Seq<u8>,
}

/// Whether `h` occurs in the sequence of hash views `s`.
pub open spec fn views_contain(s: Seq<Seq<u8>>, h: Seq<u8>) -> bool {
    exists|i: int| 0 <= i < s.len() && s[i] == h
}

/// The input stage from position `i` on. Inputs must be strictly ascending
/// and mature; an input's referenced output must exist unspent in the
/// snapshot or among the block's own output hashes, else its hash is
/// recorded; while nothing is missing, the script must run and verify, and
/// the aggregates grow.
pub open spec fn input_stage(
    inputs: Seq<TransactionInput>,
    height: u64,
    output_hashes: Seq<Seq<u8>>,
    snap: ChainSnapshot,
    i: int,
    agg_key: Seq<u8>,
    commit_sum: Seq<u8>,
    not_found: Seq<Seq<u8>>,
) -> Result<InputOutcome, SpecErr>
    decreases inputs.len() - i,
{
    if i < 0 || i >= inputs.len() {
        if not_found.len() > 0 {
            Err(SpecErr::UnknownInputs(not_found))
        } else {
            Ok(InputOutcome { aggregate_input_key: agg_key, commitment_sum: commit_sum })
        }
    } else {
        let inp = inputs[i];
        if i > 0 && !lex_lt(enc_input(inputs[i - 1]), enc_input(inp)) {
            Err(SpecErr::UnsortedOrDuplicateInput)
        } else if !inp.spec_is_mature_at(height) {
            Err(SpecErr::InputMaturity)
        } else {
            let known = snap.spec_is_utxo(inp.output_hash@) || views_contain(
                output_hashes,
                inp.output_hash@,
            );
            let nf = if known {
                not_found
            } else {
                not_found.push(inp.output_hash@)
            };
            if nf.len() == 0 {
                if !inp.spec_script_ok() {
                    Err(SpecErr::InvalidScript)
                } else {
                    input_stage(
                        inputs,
                        height,
                        output_hashes,
                        snap,
                        i + 1,
                        pt_add_bytes(agg_key, inp.script_public_key@),
                        pt_add_bytes(commit_sum, inp.commitment@),
                        nf,
                    )
                }
            } else {
                input_stage(inputs, height, output_hashes, snap, i + 1, agg_key, commit_sum, nf)
            }
        }
    }
}

/// The whole input stage: both aggregates start at the identity point and
/// nothing is missing yet.
pub open spec fn spec_validate_inputs(
    inputs: Seq<TransactionInput>,
    height: u64,
    output_hashes: Seq<Seq<u8>>,
    snap: ChainSnapshot,
) -> Result<InputOutcome, SpecErr> {
    input_stage(inputs, height, output_hashes, snap, 0, zero_32(), zero_32(), Seq::empty())
}

/// The inputs together with their aggregates, handed to the final checks.
pub struct InputValidationData {
    pub inputs: Vec<TransactionInput>,
    pub aggregate_input_key: [u8; 32],
    pub commitment_sum: [u8; 32],
}

/// Validates the inputs of a block against the chain snapshot and the hashes
/// of the block's own outputs, consuming them; on success returns them with
/// the aggregated script key and commitment sum.
#[verifier::loop_isolation(false)]
pub fn validate_inputs(
    header: &BlockHeader,
    output_hashes: Vec<[u8; 32]>,
    inputs: Vec<TransactionInput>,
    snap: &ChainSnapshot,
) -> (r: Result<InputValidationData, ValidationError>)
    requires
        forall|i: int| 0 <= i < inputs@.len() ==> (#[trigger] inputs@[i]).wf(),
    ensures
        ({
            let outcome = spec_validate_inputs(
                inputs@,
                header.height,
                hashes_view(output_hashes@),
                *snap,
            );
            match r {
                Ok(d) => {
                    &&& outcome matches Ok(o)
                    &&& d.inputs@ == inputs@
                    &&& d.aggregate_input_key@ == o.aggregate_input_key
                    &&& d.commitment_sum@ == o.commitment_sum
                    &&& point_ok(d.aggregate_input_key@)
                    &&& point_ok(d.commitment_sum@)
                },
                Err(e) => outcome == Err::<InputOutcome, SpecErr>(err_model(e)),
            }
        }),
{
    let height = header.height;
    let mut aggregate_input_key = pt_identity();
    let mut commitment_sum = pt_identity();
    let mut not_found: Vec<[u8; 32]> = Vec::new();
    let ghost goal = spec_validate_inputs(inputs@, height, hashes_view(output_hashes@), *snap);
    proof {
        assert(hashes_view(not_found@) =~= Seq::<Seq<u8>>::empty());
    }
    let mut i: usize = 0;
    while i < inputs.len()
        invariant
            i <= inputs@.len(),
            point_ok(aggregate_input_key@),
            point_ok(commitment_sum@),
            goal == input_stage(
                inputs@,
                height,
                hashes_view(output_hashes@),
                *snap,
                i as int,
                aggregate_input_key@,
                commitment_sum@,
                hashes_view(not_found@),
            ),
        decreases inputs@.len() - i,
    {
        let inp = &inputs[i];
        let ghost agg0 = aggregate_input_key@;
        let ghost cs0 = commitment_sum@;
        let ghost nf0 = hashes_view(not_found@);
        proof {
            assert(inputs@[i as int].wf());
        }
        if i > 0 {
            let prev_enc = inputs[i - 1].encode();
            let cur_enc = inp.encode();
            if !crate::order::bytes_lt(&prev_enc, &cur_enc) {
                return Err(ValidationError::UnsortedOrDuplicateInput);
            }
        }
        if !inp.is_mature_at(height) {
            return Err(ValidationError::InputMaturity);
        }
        if !snap.is_utxo(&inp.output_hash) {
            if !crate::snapshot::hashes_lookup(&output_hashes, &inp.output_hash) {
                proof {
                    lemma_views_contain(output_hashes@, inp.output_hash@);
                }
                not_found.push(inp.output_hash);
                proof {
                    assert(hashes_view(not_found@) =~= hashes_view(not_found@.drop_last()).push(
                        inp.output_hash@,
                    ));
                }
            } else {
                proof {
                    lemma_views_contain(output_hashes@, inp.output_hash@);
                }
            }
        }
        if not_found.len() == 0 {
            match inp.run_and_verify_script() {
                None => {
                    return Err(ValidationError::InvalidScript);
                },
                Some(key) => {
                    aggregate_input_key = pt_add(&aggregate_input_key, &key);
                    commitment_sum = pt_add(&commitment_sum, &inp.commitment);
                },
            }
        }
        proof {
            let hv = hashes_view(output_hashes@);
            let known = snap.spec_is_utxo(inp.output_hash@) || views_contain(hv, inp.output_hash@);
            let nf1 = if known { nf0 } else { nf0.push(inp.output_hash@) };
            assert(hashes_view(not_found@) =~= nf1);
            assert(input_stage(inputs@, height, hv, *snap, i as int, agg0, cs0, nf0) == input_stage(
                inputs@,
                height,
                hv,
                *snap,
                i + 1,
                aggregate_input_key@,
                commitment_sum@,
                hashes_view(not_found@),
            ));
        }
        i = i + 1;
    }
    if not_found.len() > 0 {
        return Err(ValidationError::UnknownInputs(not_found));
    }
    Ok(InputValidationData { inputs, aggregate_input_key, commitment_sum })
}

/// Membership among hash views coincides with membership among the hashes.
proof fn lemma_views_contain(s: Seq<[u8; 32]>, h: Seq<u8>)
    ensures
        views_contain(hashes_view(s), h) == hashes_contain(s, h),
{
    if hashes_contain(s, h) {
        let i = choose|i: int| 0 <= i < s.len() && s[i]@ == h;
        assert(hashes_view(s)[i] == h);
    }
    if views_contain(hashes_view(s), h) {
        let i = choose|i: int| 0 <= i < hashes_view(s).len() && hashes_view(s)[i] == h;
        assert(s[i]@ == h);
    }
}

} // verus!
