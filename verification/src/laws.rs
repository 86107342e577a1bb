//! The laws the validator obeys, stated over the spec-level decision
//! functions and proved from them: the homomorphic balance of every accepted
//! block, the single-coinbase rule, the canonical order of every accepted
//! body, the rejection of any reordering, and the irrelevance of the worker
//! count to the decision.

use vstd::prelude::*;

use crate::crypto::{commit_bytes, pt_add_bytes, pt_sub_bytes, zero_32};
use crate::entities::{
    enc_input, enc_kernel, enc_output, Block, TransactionInput, TransactionKernel,
    TransactionOutput,
};
use crate::errors::SpecErr;
use crate::inputs::{input_stage, spec_validate_inputs, InputOutcome};
use crate::kernels::{kernel_stage, spec_validate_kernels, KernelOutcome};
use crate::outputs::{output_stage, outputs_sorted, spec_validate_outputs};
use crate::rules::spec_coinbase_and_fees;
use crate::snapshot::ChainSnapshot;
use crate::validator::BlockValidator;

verus! {

/// The left-to-right sum of a sequence of point encodings from an initial
/// point.
pub open spec fn pt_fold(init: Seq<u8>, pts: Seq<Seq<u8>>) -> Seq<u8>
    decreases pts.len(),
{
    if pts.len() == 0 {
        init
    } else {
        pt_add_bytes(pt_fold(init, pts.drop_last()), pts.last())
    }
}

/// The commitments of a sequence of outputs, in order.
pub open spec fn output_commitments(s: Seq<TransactionOutput>) -> Seq<Seq<u8>>
    decreases s.len(),
{
    if s.len() == 0 {
        Seq::empty()
    } else {
        seq![s.first().commitment@] + output_commitments(s.drop_first())
    }
}

/// The commitments of a sequence of inputs, in order.
pub open spec fn input_commitments(s: Seq<TransactionInput>) -> Seq<Seq<u8>>
    decreases s.len(),
{
    if s.len() == 0 {
        Seq::empty()
    } else {
        seq![s.first().commitment@] + input_commitments(s.drop_first())
    }
}

/// The script public keys of a sequence of inputs, in order.
pub open spec fn input_script_keys(s: Seq<TransactionInput>) -> Seq<Seq<u8>>
    decreases s.len(),
{
    if s.len() == 0 {
        Seq::empty()
    } else {
        seq![s.first().script_public_key@] + input_script_keys(s.drop_first())
    }
}

/// The excesses of a sequence of kernels, in order.
pub open spec fn kernel_excesses(s: Seq<TransactionKernel>) -> Seq<Seq<u8>>
    decreases s.len(),
{
    if s.len() == 0 {
        Seq::empty()
    } else {
        seq![s.first().excess@] + kernel_excesses(s.drop_first())
    }
}

/// The sender-offset public keys of the non-coinbase outputs, in order.
pub open spec fn noncoinbase_offsets(s: Seq<TransactionOutput>) -> Seq<Seq<u8>>
    decreases s.len(),
{
    if s.len() == 0 {
        Seq::empty()
    } else if s.first().spec_is_coinbase() {
        noncoinbase_offsets(s.drop_first())
    } else {
        seq![s.first().sender_offset_public_key@] + noncoinbase_offsets(s.drop_first())
    }
}

/// How many kernels carry the coinbase flag.
pub open spec fn coinbase_kernel_count(s: Seq<TransactionKernel>) -> int
    decreases s.len(),
{
    if s.len() == 0 {
        0
    } else {
        (if s.first().spec_is_coinbase() {
            1int
        } else {
            0int
        }) + coinbase_kernel_count(s.drop_first())
    }
}

/// How many outputs carry the coinbase flag.
pub open spec fn coinbase_output_count(s: Seq<TransactionOutput>) -> int
    decreases s.len(),
{
    if s.len() == 0 {
        0
    } else {
        (if s.first().spec_is_coinbase() {
            1int
        } else {
            0int
        }) + coinbase_output_count(s.drop_first())
    }
}

/// Folding from a grown initial point is folding the point in front.
proof fn lemma_fold_absorb(init: Seq<u8>, x: Seq<u8>, s: Seq<Seq<u8>>)
    ensures
        pt_fold(pt_add_bytes(init, x), s) == pt_fold(init, seq![x] + s),
    decreases s.len(),
{
    if s.len() == 0 {
        assert((seq![x] + s).len() == 1);
        assert((seq![x] + s).last() == x);
        assert((seq![x] + s).drop_last() =~= Seq::<Seq<u8>>::empty());
        assert(pt_fold(init, (seq![x] + s).drop_last()) == init);
        assert(pt_fold(init, seq![x] + s) == pt_add_bytes(init, x));
    } else {
        assert((seq![x] + s).drop_last() =~= seq![x] + s.drop_last());
        assert((seq![x] + s).last() == s.last());
        lemma_fold_absorb(init, x, s.drop_last());
        assert(pt_fold(init, seq![x] + s) == pt_add_bytes(
            pt_fold(init, (seq![x] + s).drop_last()),
            s.last(),
        ));
    }
}

/// On success, the kernel stage's sum is the fold of the remaining excesses
/// from the running sum.
proof fn lemma_kernel_stage_sum(
    kernels: Seq<TransactionKernel>,
    height: u64,
    i: int,
    sum: Seq<u8>,
    fees: u64,
    max_lock: u64,
    cb: Option<int>,
)
    requires
        0 <= i <= kernels.len(),
        kernel_stage(kernels, height, i, sum, fees, max_lock, cb) is Ok,
    ensures
        kernel_stage(kernels, height, i, sum, fees, max_lock, cb) matches Ok(o) && o.kernel_sum
            == pt_fold(sum, kernel_excesses(kernels.skip(i))),
    decreases kernels.len() - i,
{
    if i == kernels.len() {
        assert(kernels.skip(i) =~= Seq::<TransactionKernel>::empty());
    } else {
        let k = kernels[i];
        let sum2 = pt_add_bytes(sum, k.excess@);
        lemma_kernel_stage_sum(
            kernels,
            height,
            i + 1,
            sum2,
            vstd::wrapping::u64_specs::wrapping_add(fees, k.fee),
            if k.lock_height > max_lock {
                k.lock_height
            } else {
                max_lock
            },
            if k.spec_is_coinbase() {
                Option::Some(i)
            } else {
                cb
            },
        );
        lemma_fold_absorb(sum, k.excess@, kernel_excesses(kernels.skip(i + 1)));
        assert(kernels.skip(i).drop_first() =~= kernels.skip(i + 1));
        assert(kernels.skip(i).first() == k);
        assert(kernel_excesses(kernels.skip(i)) =~= seq![k.excess@] + kernel_excesses(
            kernels.skip(i + 1),
        ));
    }
}

/// A run of the input stage that has already recorded a missing input never
/// succeeds.
proof fn lemma_input_stage_nf_err(
    inputs: Seq<TransactionInput>,
    height: u64,
    output_hashes: Seq<Seq<u8>>,
    snap: ChainSnapshot,
    i: int,
    agg_key: Seq<u8>,
    commit_sum: Seq<u8>,
    not_found: Seq<Seq<u8>>,
)
    requires
        0 <= i <= inputs.len(),
        not_found.len() > 0,
    ensures
        input_stage(inputs, height, output_hashes, snap, i, agg_key, commit_sum, not_found)
            is Err,
    decreases inputs.len() - i,
{
    if i < inputs.len() {
        let inp = inputs[i];
        let known = snap.spec_is_utxo(inp.output_hash@) || crate::inputs::views_contain(
            output_hashes,
            inp.output_hash@,
        );
        let nf = if known {
            not_found
        } else {
            not_found.push(inp.output_hash@)
        };
        if !(i > 0 && !crate::order::lex_lt(enc_input(inputs[i - 1]), enc_input(inp)))
            && inp.spec_is_mature_at(height) {
            lemma_input_stage_nf_err(
                inputs,
                height,
                output_hashes,
                snap,
                i + 1,
                agg_key,
                commit_sum,
                nf,
            );
        }
    }
}

/// On success, the input stage's aggregates are the folds of the remaining
/// script keys and commitments from the running sums.
proof fn lemma_input_stage_sums(
    inputs: Seq<TransactionInput>,
    height: u64,
    output_hashes: Seq<Seq<u8>>,
    snap: ChainSnapshot,
    i: int,
    agg_key: Seq<u8>,
    commit_sum: Seq<u8>,
)
    requires
        0 <= i <= inputs.len(),
        input_stage(
            inputs,
            height,
            output_hashes,
            snap,
            i,
            agg_key,
            commit_sum,
            Seq::empty(),
        ) is Ok,
    ensures
        input_stage(inputs, height, output_hashes, snap, i, agg_key, commit_sum, Seq::empty())
            matches Ok(o) && o.aggregate_input_key == pt_fold(
            agg_key,
            input_script_keys(inputs.skip(i)),
        ) && o.commitment_sum == pt_fold(commit_sum, input_commitments(inputs.skip(i))),
    decreases inputs.len() - i,
{
    if i == inputs.len() {
        assert(inputs.skip(i) =~= Seq::<TransactionInput>::empty());
    } else {
        let inp = inputs[i];
        let known = snap.spec_is_utxo(inp.output_hash@) || crate::inputs::views_contain(
            output_hashes,
            inp.output_hash@,
        );
        if !known {
            lemma_input_stage_nf_err(
                inputs,
                height,
                output_hashes,
                snap,
                i + 1,
                agg_key,
                commit_sum,
                Seq::<Seq<u8>>::empty().push(inp.output_hash@),
            );
        }
        let agg2 = pt_add_bytes(agg_key, inp.script_public_key@);
        let cs2 = pt_add_bytes(commit_sum, inp.commitment@);
        lemma_input_stage_sums(inputs, height, output_hashes, snap, i + 1, agg2, cs2);
        lemma_fold_absorb(agg_key, inp.script_public_key@, input_script_keys(inputs.skip(i + 1)));
        lemma_fold_absorb(commit_sum, inp.commitment@, input_commitments(inputs.skip(i + 1)));
        assert(inputs.skip(i).drop_first() =~= inputs.skip(i + 1));
        assert(inputs.skip(i).first() == inp);
        assert(input_script_keys(inputs.skip(i)) =~= seq![inp.script_public_key@]
            + input_script_keys(inputs.skip(i + 1)));
        assert(input_commitments(inputs.skip(i)) =~= seq![inp.commitment@] + input_commitments(
            inputs.skip(i + 1),
        ));
    }
}

/// On success, the output stage's aggregates are the folds of the remaining
/// non-coinbase sender offsets and of all remaining commitments.
proof fn lemma_output_stage_sums(
    outputs: Seq<TransactionOutput>,
    bypass: bool,
    snap: ChainSnapshot,
    i: int,
    agg_offset: Seq<u8>,
    commit_sum: Seq<u8>,
    cb: Option<int>,
)
    requires
        0 <= i <= outputs.len(),
        output_stage(outputs, bypass, snap, i, agg_offset, commit_sum, cb) is Ok,
    ensures
        output_stage(outputs, bypass, snap, i, agg_offset, commit_sum, cb) matches Ok(o)
            && o.aggregate_offset_pubkey == pt_fold(agg_offset, noncoinbase_offsets(outputs.skip(i)))
            && o.commitment_sum == pt_fold(commit_sum, output_commitments(outputs.skip(i))),
    decreases outputs.len() - i,
{
    if i == outputs.len() {
        assert(outputs.skip(i) =~= Seq::<TransactionOutput>::empty());
    } else {
        let o = outputs[i];
        let agg2 = if o.spec_is_coinbase() {
            agg_offset
        } else {
            pt_add_bytes(agg_offset, o.sender_offset_public_key@)
        };
        let cs2 = pt_add_bytes(commit_sum, o.commitment@);
        let cb2 = if o.spec_is_coinbase() {
            Option::Some(i)
        } else {
            cb
        };
        lemma_output_stage_sums(outputs, bypass, snap, i + 1, agg2, cs2, cb2);
        assert(outputs.skip(i).drop_first() =~= outputs.skip(i + 1));
        assert(outputs.skip(i).first() == o);
        if !o.spec_is_coinbase() {
            lemma_fold_absorb(
                agg_offset,
                o.sender_offset_public_key@,
                noncoinbase_offsets(outputs.skip(i + 1)),
            );
            assert(noncoinbase_offsets(outputs.skip(i)) =~= seq![o.sender_offset_public_key@]
                + noncoinbase_offsets(outputs.skip(i + 1)));
        } else {
            assert(noncoinbase_offsets(outputs.skip(i)) =~= noncoinbase_offsets(
                outputs.skip(i + 1),
            ));
        }
        lemma_fold_absorb(commit_sum, o.commitment@, output_commitments(outputs.skip(i + 1)));
        assert(output_commitments(outputs.skip(i)) =~= seq![o.commitment@] + output_commitments(
            outputs.skip(i + 1),
        ));
    }
}

/// On success the kernel stage has seen exactly one coinbase over the whole
/// walk: one among the rest if none was recorded yet, none otherwise.
proof fn lemma_kernel_stage_coinbase(
    kernels: Seq<TransactionKernel>,
    height: u64,
    i: int,
    sum: Seq<u8>,
    fees: u64,
    max_lock: u64,
    cb: Option<int>,
)
    requires
        0 <= i <= kernels.len(),
        kernel_stage(kernels, height, i, sum, fees, max_lock, cb) is Ok,
    ensures
        coinbase_kernel_count(kernels.skip(i)) == if cb is Some {
            0int
        } else {
            1int
        },
    decreases kernels.len() - i,
{
    if i == kernels.len() {
        assert(kernels.skip(i) =~= Seq::<TransactionKernel>::empty());
    } else {
        let k = kernels[i];
        lemma_kernel_stage_coinbase(
            kernels,
            height,
            i + 1,
            pt_add_bytes(sum, k.excess@),
            vstd::wrapping::u64_specs::wrapping_add(fees, k.fee),
            if k.lock_height > max_lock {
                k.lock_height
            } else {
                max_lock
            },
            if k.spec_is_coinbase() {
                Option::Some(i)
            } else {
                cb
            },
        );
        assert(kernels.skip(i).drop_first() =~= kernels.skip(i + 1));
        assert(kernels.skip(i).first() == k);
    }
}

/// On success the output stage has seen exactly one coinbase over the whole
/// walk: one among the rest if none was recorded yet, none otherwise.
proof fn lemma_output_stage_coinbase(
    outputs: Seq<TransactionOutput>,
    bypass: bool,
    snap: ChainSnapshot,
    i: int,
    agg_offset: Seq<u8>,
    commit_sum: Seq<u8>,
    cb: Option<int>,
)
    requires
        0 <= i <= outputs.len(),
        output_stage(outputs, bypass, snap, i, agg_offset, commit_sum, cb) is Ok,
    ensures
        coinbase_output_count(outputs.skip(i)) == if cb is Some {
            0int
        } else {
            1int
        },
    decreases outputs.len() - i,
{
    if i == outputs.len() {
        assert(outputs.skip(i) =~= Seq::<TransactionOutput>::empty());
    } else {
        let o = outputs[i];
        lemma_output_stage_coinbase(
            outputs,
            bypass,
            snap,
            i + 1,
            if o.spec_is_coinbase() {
                agg_offset
            } else {
                pt_add_bytes(agg_offset, o.sender_offset_public_key@)
            },
            pt_add_bytes(commit_sum, o.commitment@),
            if o.spec_is_coinbase() {
                Option::Some(i)
            } else {
                cb
            },
        );
        assert(outputs.skip(i).drop_first() =~= outputs.skip(i + 1));
        assert(outputs.skip(i).first() == o);
    }
}

/// For any block the validator accepts, the homomorphic balance holds: the
/// sum of the output commitments, less the sum of the spent commitments,
/// equals the sum of the kernel excesses taken from the commitment to the
/// header's total kernel offset and the whole reward (the block subsidy plus
/// the sum of the fees).
pub proof fn lemma_accepted_balance(
    v: BlockValidator,
    block: Block,
    snap: ChainSnapshot,
    roots: crate::entities::MmrRoots,
)
    requires
        v.spec_validate_body(block, snap, roots) is Ok,
    ensures
        pt_sub_bytes(
            pt_fold(zero_32(), output_commitments(block.body.outputs@)),
            pt_fold(zero_32(), input_commitments(block.body.inputs@)),
        ) == pt_fold(
            commit_bytes(
                block.header.total_kernel_offset@,
                spec_coinbase_and_fees(v.rules, block.header.height, block.body.kernels@),
            ),
            kernel_excesses(block.body.kernels@),
        ),
{
    let header = block.header;
    let outputs = block.body.outputs@;
    let inputs = block.body.inputs@;
    let kernels = block.body.kernels@;
    let oo = spec_validate_outputs(outputs, v.bypass_range_proof_verification, snap)->Ok_0;
    let io = spec_validate_inputs(
        inputs,
        header.height,
        crate::outputs::spec_output_hashes(outputs),
        snap,
    )->Ok_0;
    let ko = spec_validate_kernels(
        kernels,
        header.height,
        header.total_kernel_offset@,
        spec_coinbase_and_fees(v.rules, header.height, kernels),
    )->Ok_0;
    lemma_output_stage_sums(
        outputs,
        v.bypass_range_proof_verification,
        snap,
        0,
        zero_32(),
        zero_32(),
        Option::None,
    );
    lemma_input_stage_sums(
        inputs,
        header.height,
        crate::outputs::spec_output_hashes(outputs),
        snap,
        0,
        zero_32(),
        zero_32(),
    );
    lemma_kernel_stage_sum(
        kernels,
        header.height,
        0,
        commit_bytes(
            header.total_kernel_offset@,
            spec_coinbase_and_fees(v.rules, header.height, kernels),
        ),
        0u64,
        0u64,
        Option::None,
    );
    assert(outputs.skip(0) =~= outputs);
    assert(inputs.skip(0) =~= inputs);
    assert(kernels.skip(0) =~= kernels);
}

/// For any block the validator accepts, exactly one kernel and exactly one
/// output carry the coinbase flag.
pub proof fn lemma_accepted_single_coinbase(
    v: BlockValidator,
    block: Block,
    snap: ChainSnapshot,
    roots: crate::entities::MmrRoots,
)
    requires
        v.spec_validate_body(block, snap, roots) is Ok,
    ensures
        coinbase_kernel_count(block.body.kernels@) == 1,
        coinbase_output_count(block.body.outputs@) == 1,
{
    let header = block.header;
    let outputs = block.body.outputs@;
    let kernels = block.body.kernels@;
    lemma_output_stage_coinbase(
        outputs,
        v.bypass_range_proof_verification,
        snap,
        0,
        zero_32(),
        zero_32(),
        Option::None,
    );
    lemma_kernel_stage_coinbase(
        kernels,
        header.height,
        0,
        commit_bytes(
            header.total_kernel_offset@,
            spec_coinbase_and_fees(v.rules, header.height, kernels),
        ),
        0u64,
        0u64,
        Option::None,
    );
    assert(outputs.skip(0) =~= outputs);
    assert(kernels.skip(0) =~= kernels);
}

/// The kernel stage enforces the canonical order on every adjacent pair it
/// walks past.
proof fn lemma_kernel_stage_sorted(
    kernels: Seq<TransactionKernel>,
    height: u64,
    i: int,
    sum: Seq<u8>,
    fees: u64,
    max_lock: u64,
    cb: Option<int>,
)
    requires
        0 <= i <= kernels.len(),
        kernel_stage(kernels, height, i, sum, fees, max_lock, cb) is Ok,
    ensures
        forall|j: int|
            i <= j && 1 <= j && j < kernels.len() ==> crate::order::lex_lt(
                enc_kernel(kernels[j - 1]),
                enc_kernel(#[trigger] kernels[j]),
            ),
    decreases kernels.len() - i,
{
    if i < kernels.len() {
        let k = kernels[i];
        lemma_kernel_stage_sorted(
            kernels,
            height,
            i + 1,
            pt_add_bytes(sum, k.excess@),
            vstd::wrapping::u64_specs::wrapping_add(fees, k.fee),
            if k.lock_height > max_lock {
                k.lock_height
            } else {
                max_lock
            },
            if k.spec_is_coinbase() {
                Option::Some(i)
            } else {
                cb
            },
        );
    }
}

/// The input stage enforces the canonical order on every adjacent pair it
/// walks past.
proof fn lemma_input_stage_sorted(
    inputs: Seq<TransactionInput>,
    height: u64,
    output_hashes: Seq<Seq<u8>>,
    snap: ChainSnapshot,
    i: int,
    agg_key: Seq<u8>,
    commit_sum: Seq<u8>,
    not_found: Seq<Seq<u8>>,
)
    requires
        0 <= i <= inputs.len(),
        input_stage(inputs, height, output_hashes, snap, i, agg_key, commit_sum, not_found)
            is Ok,
    ensures
        forall|j: int|
            i <= j && 1 <= j && j < inputs.len() ==> crate::order::lex_lt(
                enc_input(inputs[j - 1]),
                enc_input(#[trigger] inputs[j]),
            ),
    decreases inputs.len() - i,
{
    if i < inputs.len() {
        let inp = inputs[i];
        let known = snap.spec_is_utxo(inp.output_hash@) || crate::inputs::views_contain(
            output_hashes,
            inp.output_hash@,
        );
        let nf = if known {
            not_found
        } else {
            not_found.push(inp.output_hash@)
        };
        if nf.len() == 0 {
            lemma_input_stage_sorted(
                inputs,
                height,
                output_hashes,
                snap,
                i + 1,
                pt_add_bytes(agg_key, inp.script_public_key@),
                pt_add_bytes(commit_sum, inp.commitment@),
                nf,
            );
        } else {
            lemma_input_stage_sorted(
                inputs,
                height,
                output_hashes,
                snap,
                i + 1,
                agg_key,
                commit_sum,
                nf,
            );
        }
    }
}

/// For any block the validator accepts, the three body sequences are
/// strictly ascending under the canonical order, with no duplicates. The
/// validator's own contract states that the returned sequences equal the
/// ones given, so each is also a permutation of its input.
pub proof fn lemma_accepted_sorted(
    v: BlockValidator,
    block: Block,
    snap: ChainSnapshot,
    roots: crate::entities::MmrRoots,
)
    requires
        v.spec_validate_body(block, snap, roots) is Ok,
    ensures
        outputs_sorted(block.body.outputs@),
        forall|j: int|
            1 <= j && j < block.body.inputs@.len() ==> crate::order::lex_lt(
                enc_input(block.body.inputs@[j - 1]),
                enc_input(#[trigger] block.body.inputs@[j]),
            ),
        forall|j: int|
            1 <= j && j < block.body.kernels@.len() ==> crate::order::lex_lt(
                enc_kernel(block.body.kernels@[j - 1]),
                enc_kernel(#[trigger] block.body.kernels@[j]),
            ),
{
    let header = block.header;
    let outputs = block.body.outputs@;
    let inputs = block.body.inputs@;
    let kernels = block.body.kernels@;
    lemma_input_stage_sorted(
        inputs,
        header.height,
        crate::outputs::spec_output_hashes(outputs),
        snap,
        0,
        zero_32(),
        zero_32(),
        Seq::empty(),
    );
    lemma_kernel_stage_sorted(
        kernels,
        header.height,
        0,
        commit_bytes(
            header.total_kernel_offset@,
            spec_coinbase_and_fees(v.rules, header.height, kernels),
        ),
        0u64,
        0u64,
        Option::None,
    );
}

/// The decision does not depend on the worker count: two validators that
/// agree on the rules and the range-proof bypass decide every block alike,
/// whatever their concurrency.
pub proof fn lemma_concurrency_irrelevant(
    v1: BlockValidator,
    v2: BlockValidator,
    block: Block,
    snap: ChainSnapshot,
    roots: crate::entities::MmrRoots,
)
    requires
        v1.rules == v2.rules,
        v1.bypass_range_proof_verification == v2.bypass_range_proof_verification,
    ensures
        v1.spec_validate_body(block, snap, roots) == v2.spec_validate_body(block, snap, roots),
{
}


/// A sequence of `n` distinct positions below `n`.
pub open spec fn is_permutation(perm: Seq<int>, n: int) -> bool {
    &&& perm.len() == n
    &&& forall|j: int| 0 <= j < n ==> 0 <= #[trigger] perm[j] < n
    &&& forall|j1: int, j2: int| 0 <= j1 < j2 < n ==> perm[j1] != perm[j2]
}

/// An adjacent-increasing permutation is bounded below by the identity.
proof fn lemma_incr_lower(perm: Seq<int>, n: int, j: int)
    requires
        is_permutation(perm, n),
        forall|m: int| 1 <= m < n ==> perm[m - 1] < #[trigger] perm[m],
        0 <= j < n,
    ensures
        perm[j] >= j,
    decreases j,
{
    if j > 0 {
        lemma_incr_lower(perm, n, j - 1);
    }
}

/// An adjacent-increasing permutation is bounded above by the identity.
proof fn lemma_incr_upper(perm: Seq<int>, n: int, j: int)
    requires
        is_permutation(perm, n),
        forall|m: int| 1 <= m < n ==> perm[m - 1] < #[trigger] perm[m],
        0 <= j < n,
    ensures
        perm[j] <= j,
    decreases n - j,
{
    if j < n - 1 {
        lemma_incr_upper(perm, n, j + 1);
    }
}

/// A permutation that moves anything has an adjacent descent.
proof fn lemma_perm_descent(perm: Seq<int>, n: int)
    requires
        is_permutation(perm, n),
        exists|j: int| 0 <= j < n && #[trigger] perm[j] != j,
    ensures
        exists|j: int| 1 <= j < n && #[trigger] perm[j - 1] > perm[j],
{
    if !(exists|j: int| 1 <= j < n && #[trigger] perm[j - 1] > perm[j]) {
        assert forall|m: int| 1 <= m < n implies perm[m - 1] < #[trigger] perm[m] by {
            assert(!(perm[m - 1] > perm[m]));
            assert(perm[m - 1] != perm[m]);
        }
        let w = choose|j: int| 0 <= j < n && #[trigger] perm[j] != j;
        lemma_incr_lower(perm, n, w);
        lemma_incr_upper(perm, n, w);
    }
}

/// On success, every kernel the stage walked past has a valid signature.
proof fn lemma_kernel_stage_items(
    kernels: Seq<TransactionKernel>,
    height: u64,
    i: int,
    sum: Seq<u8>,
    fees: u64,
    max_lock: u64,
    cb: Option<int>,
)
    requires
        0 <= i <= kernels.len(),
        kernel_stage(kernels, height, i, sum, fees, max_lock, cb) is Ok,
    ensures
        forall|m: int| i <= m < kernels.len() ==> (#[trigger] kernels[m]).spec_sig_ok(),
    decreases kernels.len() - i,
{
    if i < kernels.len() {
        let k = kernels[i];
        lemma_kernel_stage_items(
            kernels,
            height,
            i + 1,
            pt_add_bytes(sum, k.excess@),
            vstd::wrapping::u64_specs::wrapping_add(fees, k.fee),
            if k.lock_height > max_lock {
                k.lock_height
            } else {
                max_lock
            },
            if k.spec_is_coinbase() {
                Option::Some(i)
            } else {
                cb
            },
        );
    }
}

/// On success, no two kernels the stage walked past both carry the coinbase
/// flag, and none does at all once one was recorded.
proof fn lemma_kernel_stage_unique_coinbase(
    kernels: Seq<TransactionKernel>,
    height: u64,
    i: int,
    sum: Seq<u8>,
    fees: u64,
    max_lock: u64,
    cb: Option<int>,
)
    requires
        0 <= i <= kernels.len(),
        kernel_stage(kernels, height, i, sum, fees, max_lock, cb) is Ok,
    ensures
        cb is Some ==> forall|m: int|
            i <= m < kernels.len() ==> !(#[trigger] kernels[m]).spec_is_coinbase(),
        forall|m1: int, m2: int|
            i <= m1 < m2 < kernels.len() ==> !((#[trigger] kernels[m1]).spec_is_coinbase() && (
            #[trigger] kernels[m2]).spec_is_coinbase()),
    decreases kernels.len() - i,
{
    if i < kernels.len() {
        let k = kernels[i];
        lemma_kernel_stage_unique_coinbase(
            kernels,
            height,
            i + 1,
            pt_add_bytes(sum, k.excess@),
            vstd::wrapping::u64_specs::wrapping_add(fees, k.fee),
            if k.lock_height > max_lock {
                k.lock_height
            } else {
                max_lock
            },
            if k.spec_is_coinbase() {
                Option::Some(i)
            } else {
                cb
            },
        );
    }
}

/// On success, every input the stage walked past is mature, known and has a
/// passing script.
proof fn lemma_input_stage_items(
    inputs: Seq<TransactionInput>,
    height: u64,
    output_hashes: Seq<Seq<u8>>,
    snap: ChainSnapshot,
    i: int,
    agg_key: Seq<u8>,
    commit_sum: Seq<u8>,
)
    requires
        0 <= i <= inputs.len(),
        input_stage(
            inputs,
            height,
            output_hashes,
            snap,
            i,
            agg_key,
            commit_sum,
            Seq::empty(),
        ) is Ok,
    ensures
        forall|m: int|
            i <= m < inputs.len() ==> {
                let inp = #[trigger] inputs[m];
                &&& inp.spec_is_mature_at(height)
                &&& inp.spec_script_ok()
                &&& (snap.spec_is_utxo(inp.output_hash@) || crate::inputs::views_contain(
                    output_hashes,
                    inp.output_hash@,
                ))
            },
    decreases inputs.len() - i,
{
    if i < inputs.len() {
        let inp = inputs[i];
        let known = snap.spec_is_utxo(inp.output_hash@) || crate::inputs::views_contain(
            output_hashes,
            inp.output_hash@,
        );
        if !known {
            lemma_input_stage_nf_err(
                inputs,
                height,
                output_hashes,
                snap,
                i + 1,
                agg_key,
                commit_sum,
                Seq::<Seq<u8>>::empty().push(inp.output_hash@),
            );
        }
        lemma_input_stage_items(
            inputs,
            height,
            output_hashes,
            snap,
            i + 1,
            pt_add_bytes(agg_key, inp.script_public_key@),
            pt_add_bytes(commit_sum, inp.commitment@),
        );
    }
}

/// A walk over individually passing inputs that has an adjacent inversion
/// ahead of it ends with the order error.
proof fn lemma_input_stage_unsorted(
    inputs: Seq<TransactionInput>,
    height: u64,
    output_hashes: Seq<Seq<u8>>,
    snap: ChainSnapshot,
    i: int,
    agg_key: Seq<u8>,
    commit_sum: Seq<u8>,
    j: int,
)
    requires
        0 <= i <= inputs.len(),
        forall|m: int|
            0 <= m < inputs.len() ==> {
                let inp = #[trigger] inputs[m];
                &&& inp.spec_is_mature_at(height)
                &&& (snap.spec_is_utxo(inp.output_hash@) || crate::inputs::views_contain(
                    output_hashes,
                    inp.output_hash@,
                ))
                &&& inp.spec_script_ok()
            },
        1 <= j < inputs.len(),
        i <= j,
        !crate::order::lex_lt(enc_input(inputs[j - 1]), enc_input(inputs[j])),
    ensures
        input_stage(
            inputs,
            height,
            output_hashes,
            snap,
            i,
            agg_key,
            commit_sum,
            Seq::empty(),
        ) == Err::<InputOutcome, SpecErr>(SpecErr::UnsortedOrDuplicateInput),
    decreases inputs.len() - i,
{
    let inp = inputs[i];
    if !(i > 0 && !crate::order::lex_lt(enc_input(inputs[i - 1]), enc_input(inp))) {
        assert(i < j);
        lemma_input_stage_unsorted(
            inputs,
            height,
            output_hashes,
            snap,
            i + 1,
            pt_add_bytes(agg_key, inp.script_public_key@),
            pt_add_bytes(commit_sum, inp.commitment@),
            j,
        );
    }
}

/// A walk over individually passing kernels, at most one of them coinbase,
/// that has an adjacent inversion ahead of it ends with the order error.
proof fn lemma_kernel_stage_unsorted(
    kernels: Seq<TransactionKernel>,
    height: u64,
    i: int,
    sum: Seq<u8>,
    fees: u64,
    max_lock: u64,
    cb: Option<int>,
    j: int,
)
    requires
        0 <= i <= kernels.len(),
        forall|m: int| 0 <= m < kernels.len() ==> (#[trigger] kernels[m]).spec_sig_ok(),
        forall|m1: int, m2: int|
            0 <= m1 < m2 < kernels.len() ==> !((#[trigger] kernels[m1]).spec_is_coinbase() && (
            #[trigger] kernels[m2]).spec_is_coinbase()),
        cb is Some ==> exists|m: int|
            0 <= m < i && (#[trigger] kernels[m]).spec_is_coinbase(),
        1 <= j < kernels.len(),
        i <= j,
        !crate::order::lex_lt(enc_kernel(kernels[j - 1]), enc_kernel(kernels[j])),
    ensures
        kernel_stage(kernels, height, i, sum, fees, max_lock, cb) == Err::<
            KernelOutcome,
            SpecErr,
        >(SpecErr::UnsortedOrDuplicateKernel),
    decreases kernels.len() - i,
{
    let k = kernels[i];
    if !(i > 0 && !crate::order::lex_lt(enc_kernel(kernels[i - 1]), enc_kernel(k))) {
        assert(i < j);
        if k.spec_is_coinbase() && cb is Some {
            let m = choose|m: int| 0 <= m < i && (#[trigger] kernels[m]).spec_is_coinbase();
            assert(false);
        }
        lemma_kernel_stage_unsorted(
            kernels,
            height,
            i + 1,
            pt_add_bytes(sum, k.excess@),
            vstd::wrapping::u64_specs::wrapping_add(fees, k.fee),
            if k.lock_height > max_lock {
                k.lock_height
            } else {
                max_lock
            },
            if k.spec_is_coinbase() {
                Option::Some(i)
            } else {
                cb
            },
            j,
        );
    }
}

/// Reordering the outputs of an accepted block makes validation fail with
/// the output order error.
pub proof fn lemma_reordered_outputs_rejected(
    v: BlockValidator,
    block: Block,
    snap: ChainSnapshot,
    roots: crate::entities::MmrRoots,
    block2: Block,
    perm: Seq<int>,
)
    requires
        v.spec_validate_body(block, snap, roots) is Ok,
        block2.header == block.header,
        block2.body.inputs@ == block.body.inputs@,
        block2.body.kernels@ == block.body.kernels@,
        is_permutation(perm, block.body.outputs@.len() as int),
        block2.body.outputs@.len() == block.body.outputs@.len(),
        forall|j: int|
            0 <= j < block2.body.outputs@.len() ==> #[trigger] block2.body.outputs@[j]
                == block.body.outputs@[perm[j]],
        exists|j: int| 0 <= j < perm.len() && #[trigger] perm[j] != j,
    ensures
        v.spec_validate_body(block2, snap, roots) == Err::<(), SpecErr>(
            SpecErr::UnsortedOrDuplicateOutput,
        ),
{
    let outputs = block.body.outputs@;
    let n = outputs.len() as int;
    let e = Seq::new(n as nat, |m: int| enc_output(outputs[m]));
    assert(crate::order::strictly_ascending(e));
    lemma_perm_descent(perm, n);
    let j = choose|j: int| 1 <= j < n && #[trigger] perm[j - 1] > perm[j];
    crate::order::lemma_ascending_pairwise(e, perm[j], perm[j - 1]);
    crate::order::lemma_lex_asymmetric(e[perm[j]], e[perm[j - 1]]);
    assert(!crate::order::lex_lt(
        enc_output(block2.body.outputs@[j - 1]),
        enc_output(block2.body.outputs@[j]),
    ));
    assert(!outputs_sorted(block2.body.outputs@));
}

/// Reordering the inputs of an accepted block makes validation fail with the
/// input order error.
pub proof fn lemma_reordered_inputs_rejected(
    v: BlockValidator,
    block: Block,
    snap: ChainSnapshot,
    roots: crate::entities::MmrRoots,
    block2: Block,
    perm: Seq<int>,
)
    requires
        v.spec_validate_body(block, snap, roots) is Ok,
        block2.header == block.header,
        block2.body.outputs@ == block.body.outputs@,
        block2.body.kernels@ == block.body.kernels@,
        is_permutation(perm, block.body.inputs@.len() as int),
        block2.body.inputs@.len() == block.body.inputs@.len(),
        forall|j: int|
            0 <= j < block2.body.inputs@.len() ==> #[trigger] block2.body.inputs@[j]
                == block.body.inputs@[perm[j]],
        exists|j: int| 0 <= j < perm.len() && #[trigger] perm[j] != j,
    ensures
        v.spec_validate_body(block2, snap, roots) == Err::<(), SpecErr>(
            SpecErr::UnsortedOrDuplicateInput,
        ),
{
    let header = block.header;
    let outputs = block.body.outputs@;
    let inputs = block.body.inputs@;
    let inputs2 = block2.body.inputs@;
    let hv = crate::outputs::spec_output_hashes(outputs);
    let n = inputs.len() as int;

    lemma_input_stage_items(inputs, header.height, hv, snap, 0, zero_32(), zero_32());
    lemma_input_stage_sorted(
        inputs,
        header.height,
        hv,
        snap,
        0,
        zero_32(),
        zero_32(),
        Seq::empty(),
    );

    let e = Seq::new(n as nat, |m: int| enc_input(inputs[m]));
    assert forall|m: int| 0 <= m && m + 1 < e.len() implies crate::order::lex_lt(
        #[trigger] e[m],
        e[m + 1],
    ) by {
        assert(e[m] == enc_input(inputs[m]));
        assert(e[m + 1] == enc_input(inputs[m + 1]));
        assert(crate::order::lex_lt(enc_input(inputs[m]), enc_input(inputs[m + 1])));
    }
    assert(crate::order::strictly_ascending(e));
    lemma_perm_descent(perm, n);
    let j = choose|j: int| 1 <= j < n && #[trigger] perm[j - 1] > perm[j];
    crate::order::lemma_ascending_pairwise(e, perm[j], perm[j - 1]);
    crate::order::lemma_lex_asymmetric(e[perm[j]], e[perm[j - 1]]);
    assert(!crate::order::lex_lt(enc_input(inputs2[j - 1]), enc_input(inputs2[j])));

    assert forall|m: int| 0 <= m < inputs2.len() implies {
        let inp = #[trigger] inputs2[m];
        &&& inp.spec_is_mature_at(header.height)
        &&& (snap.spec_is_utxo(inp.output_hash@) || crate::inputs::views_contain(
            hv,
            inp.output_hash@,
        ))
        &&& inp.spec_script_ok()
    } by {
        assert(inputs2[m] == inputs[perm[m]]);
        assert(inputs[perm[m]].spec_is_mature_at(header.height));
    }
    lemma_input_stage_unsorted(
        inputs2,
        header.height,
        hv,
        snap,
        0,
        zero_32(),
        zero_32(),
        j,
    );
}

/// Reordering the kernels of an accepted block makes validation fail with
/// the kernel order error.
pub proof fn lemma_reordered_kernels_rejected(
    v: BlockValidator,
    block: Block,
    snap: ChainSnapshot,
    roots: crate::entities::MmrRoots,
    block2: Block,
    perm: Seq<int>,
)
    requires
        v.spec_validate_body(block, snap, roots) is Ok,
        block2.header == block.header,
        block2.body.outputs@ == block.body.outputs@,
        block2.body.inputs@ == block.body.inputs@,
        is_permutation(perm, block.body.kernels@.len() as int),
        block2.body.kernels@.len() == block.body.kernels@.len(),
        forall|j: int|
            0 <= j < block2.body.kernels@.len() ==> #[trigger] block2.body.kernels@[j]
                == block.body.kernels@[perm[j]],
        exists|j: int| 0 <= j < perm.len() && #[trigger] perm[j] != j,
    ensures
        v.spec_validate_body(block2, snap, roots) == Err::<(), SpecErr>(
            SpecErr::UnsortedOrDuplicateKernel,
        ),
{
    let header = block.header;
    let kernels = block.body.kernels@;
    let kernels2 = block2.body.kernels@;
    let n = kernels.len() as int;
    let seed = commit_bytes(
        header.total_kernel_offset@,
        spec_coinbase_and_fees(v.rules, header.height, kernels),
    );

    lemma_kernel_stage_items(kernels, header.height, 0, seed, 0u64, 0u64, Option::None);
    lemma_kernel_stage_unique_coinbase(
        kernels,
        header.height,
        0,
        seed,
        0u64,
        0u64,
        Option::None,
    );
    lemma_kernel_stage_sorted(kernels, header.height, 0, seed, 0u64, 0u64, Option::None);

    let e = Seq::new(n as nat, |m: int| enc_kernel(kernels[m]));
    assert forall|m: int| 0 <= m && m + 1 < e.len() implies crate::order::lex_lt(
        #[trigger] e[m],
        e[m + 1],
    ) by {
        assert(e[m] == enc_kernel(kernels[m]));
        assert(e[m + 1] == enc_kernel(kernels[m + 1]));
        assert(crate::order::lex_lt(enc_kernel(kernels[m]), enc_kernel(kernels[m + 1])));
    }
    assert(crate::order::strictly_ascending(e));
    lemma_perm_descent(perm, n);
    let j = choose|j: int| 1 <= j < n && #[trigger] perm[j - 1] > perm[j];
    crate::order::lemma_ascending_pairwise(e, perm[j], perm[j - 1]);
    crate::order::lemma_lex_asymmetric(e[perm[j]], e[perm[j - 1]]);
    assert(!crate::order::lex_lt(enc_kernel(kernels2[j - 1]), enc_kernel(kernels2[j])));

    assert forall|m: int| 0 <= m < kernels2.len() implies (
    #[trigger] kernels2[m]).spec_sig_ok() by {
        assert(kernels2[m] == kernels[perm[m]]);
    }
    assert forall|m1: int, m2: int| 0 <= m1 < m2 < kernels2.len() implies !((
    #[trigger] kernels2[m1]).spec_is_coinbase() && (#[trigger] kernels2[m2]).spec_is_coinbase())
        by {
        assert(kernels2[m1] == kernels[perm[m1]]);
        assert(kernels2[m2] == kernels[perm[m2]]);
        assert(perm[m1] != perm[m2]);
        if perm[m1] < perm[m2] {
            assert(!(kernels[perm[m1]].spec_is_coinbase() && kernels[perm[m2]].spec_is_coinbase()));
        } else {
            assert(!(kernels[perm[m2]].spec_is_coinbase() && kernels[perm[m1]].spec_is_coinbase()));
        }
    }

    let seed2 = commit_bytes(
        header.total_kernel_offset@,
        spec_coinbase_and_fees(v.rules, header.height, kernels2),
    );
    lemma_kernel_stage_unsorted(
        kernels2,
        header.height,
        0,
        seed2,
        0u64,
        0u64,
        Option::None,
        j,
    );
}


/// On success the running timelock bound and every remaining kernel's
/// timelock are at or below the block height.
proof fn lemma_kernel_stage_locks(
    kernels: Seq<TransactionKernel>,
    height: u64,
    i: int,
    sum: Seq<u8>,
    fees: u64,
    max_lock: u64,
    cb: Option<int>,
)
    requires
        0 <= i <= kernels.len(),
        kernel_stage(kernels, height, i, sum, fees, max_lock, cb) is Ok,
    ensures
        max_lock <= height,
        forall|m: int| i <= m < kernels.len() ==> (#[trigger] kernels[m]).lock_height <= height,
    decreases kernels.len() - i,
{
    if i < kernels.len() {
        let k = kernels[i];
        lemma_kernel_stage_locks(
            kernels,
            height,
            i + 1,
            pt_add_bytes(sum, k.excess@),
            vstd::wrapping::u64_specs::wrapping_add(fees, k.fee),
            if k.lock_height > max_lock {
                k.lock_height
            } else {
                max_lock
            },
            if k.spec_is_coinbase() {
                Option::Some(i)
            } else {
                cb
            },
        );
    }
}

/// For any block the validator accepts, every kernel's excess signature
/// verifies and no kernel's timelock exceeds the block height.
pub proof fn lemma_accepted_kernels_sound(
    v: BlockValidator,
    block: Block,
    snap: ChainSnapshot,
    roots: crate::entities::MmrRoots,
)
    requires
        v.spec_validate_body(block, snap, roots) is Ok,
    ensures
        forall|m: int|
            0 <= m < block.body.kernels@.len() ==> (#[trigger] block.body.kernels@[m]).spec_sig_ok(),
        forall|m: int|
            0 <= m < block.body.kernels@.len() ==> (#[trigger] block.body.kernels@[m]).lock_height
                <= block.header.height,
{
    let header = block.header;
    let kernels = block.body.kernels@;
    let seed = commit_bytes(
        header.total_kernel_offset@,
        spec_coinbase_and_fees(v.rules, header.height, kernels),
    );
    lemma_kernel_stage_items(kernels, header.height, 0, seed, 0u64, 0u64, Option::None);
    lemma_kernel_stage_locks(kernels, header.height, 0, seed, 0u64, 0u64, Option::None);
}

/// For any block the validator accepts, every input is mature at the block
/// height, runs its script under a verifying signature, and spends an output
/// that exists unspent in the snapshot or is created by this very block.
pub proof fn lemma_accepted_inputs_resolve(
    v: BlockValidator,
    block: Block,
    snap: ChainSnapshot,
    roots: crate::entities::MmrRoots,
)
    requires
        v.spec_validate_body(block, snap, roots) is Ok,
    ensures
        forall|m: int|
            0 <= m < block.body.inputs@.len() ==> {
                let inp = #[trigger] block.body.inputs@[m];
                &&& inp.spec_is_mature_at(block.header.height)
                &&& inp.spec_script_ok()
                &&& (snap.spec_is_utxo(inp.output_hash@) || crate::inputs::views_contain(
                    crate::outputs::spec_output_hashes(block.body.outputs@),
                    inp.output_hash@,
                ))
            },
{
    let header = block.header;
    let inputs = block.body.inputs@;
    let hv = crate::outputs::spec_output_hashes(block.body.outputs@);
    lemma_input_stage_items(inputs, header.height, hv, snap, 0, zero_32(), zero_32());
}

} // verus!
