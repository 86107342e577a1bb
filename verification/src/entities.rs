//! The block, its header and the three body entities, together with their
//! canonical byte encodings, identity hashes and signature challenges.
//!
//! Curve points, scalars and signature parts are held as their canonical
//! 32-byte encodings; well-formedness of an entity says that the fields
//! the validator aggregates on the curve are valid encodings.

use vstd::prelude::*;
use vstd::bytes::{spec_u64_to_le_bytes, u64_to_le_bytes};

use crate::crypto::{
    blake2b_256, blake2b_256_bytes, blake2b_512, blake2b_512_bytes, point_check, point_ok,
    scalar_check, scalar_ok, schnorr_ok,
};

verus! {

/// The feature bit that marks a kernel or an output as the coinbase.
pub const COINBASE_FLAG: u8 = 1;

/// A transaction kernel: the public excess of a transaction and a Schnorr
/// signature over it, with the fee and an optional timelock.
#[derive(Clone, Copy, Debug)]
pub struct TransactionKernel {
    pub features: u8,
    pub fee: u64,
    pub lock_height: u64,
    pub excess: [u8; 32],
    pub sig_nonce: [u8; 32],
    pub sig_signature: [u8; 32],
}

/// A transaction output: a Pedersen commitment with its range proof, script,
/// sender-offset public key and metadata signature.
#[derive(Clone, Debug)]
pub struct TransactionOutput {
    pub features: u8,
    pub commitment: [u8; 32],
    pub script: Vec<u8>,
    pub sender_offset_public_key: [u8; 32],
    pub meta_nonce: [u8; 32],
    pub meta_signature: [u8; 32],
    pub range_proof: Vec<u8>,
    pub covenant: Vec<u8>,
}

/// A transaction input: a reference to the spent output by hash, the spent
/// commitment, and the script with its signature.
#[derive(Clone, Debug)]
pub struct TransactionInput {
    pub features: u8,
    pub maturity: u64,
    pub commitment: [u8; 32],
    pub script: Vec<u8>,
    pub input_data: Vec<u8>,
    pub script_public_key: [u8; 32],
    pub sender_offset_public_key: [u8; 32],
    pub sig_nonce: [u8; 32],
    pub sig_signature: [u8; 32],
    pub output_hash: [u8; 32],
}

/// A block header, already validated elsewhere; the body validator reads its
/// height, the two offsets and the four Merkle-mountain-range roots.
#[derive(Clone, Copy, Debug)]
pub struct BlockHeader {
    pub version: u16,
    pub height: u64,
    pub total_kernel_offset: [u8; 32],
    pub total_script_offset: [u8; 32],
    pub output_mr: [u8; 32],
    pub kernel_mr: [u8; 32],
    pub input_mr: [u8; 32],
    pub range_proof_mr: [u8; 32],
}

/// The three ordered entity sequences of a block.
#[derive(Clone, Debug)]
pub struct AggregateBody {
    pub inputs: Vec<TransactionInput>,
    pub outputs: Vec<TransactionOutput>,
    pub kernels: Vec<TransactionKernel>,
}

/// A block: a header and an aggregate body.
#[derive(Clone, Debug)]
pub struct Block {
    pub header: BlockHeader,
    pub body: AggregateBody,
}

/// The four recomputed Merkle-mountain-range roots for a block.
#[derive(Clone, Copy, Debug)]
pub struct MmrRoots {
    pub output_mr: [u8; 32],
    pub kernel_mr: [u8; 32],
    pub input_mr: [u8; 32],
    pub range_proof_mr: [u8; 32],
}

/// The running kernel aggregate: a sum of curve points and a sum of fees.
#[derive(Clone, Copy, Debug)]
pub struct KernelSum {
    pub sum: [u8; 32],
    pub fees: u64,
}

impl TransactionKernel {
    /// The fields the validator adds on the curve are valid point encodings.
    pub open spec fn wf(self) -> bool {
        point_ok(self.excess@)
    }

    pub open spec fn spec_is_coinbase(self) -> bool {
        self.features & COINBASE_FLAG == COINBASE_FLAG
    }

    pub fn is_coinbase(&self) -> (r: bool)
        ensures
            r == self.spec_is_coinbase(),
    {
        self.features & COINBASE_FLAG == COINBASE_FLAG
    }
}

impl TransactionOutput {
    pub open spec fn wf(self) -> bool {
        point_ok(self.commitment@) && point_ok(self.sender_offset_public_key@)
    }

    pub open spec fn spec_is_coinbase(self) -> bool {
        self.features & COINBASE_FLAG == COINBASE_FLAG
    }

    pub fn is_coinbase(&self) -> (r: bool)
        ensures
            r == self.spec_is_coinbase(),
    {
        self.features & COINBASE_FLAG == COINBASE_FLAG
    }
}

impl TransactionInput {
    pub open spec fn wf(self) -> bool {
        point_ok(self.commitment@) && point_ok(self.script_public_key@)
    }

    /// An input may be spent at `height` once its maturity is reached.
    pub open spec fn spec_is_mature_at(self, height: u64) -> bool {
        self.maturity <= height
    }

    pub fn is_mature_at(&self, height: u64) -> (r: bool)
        ensures
            r == self.spec_is_mature_at(height),
    {
        self.maturity <= height
    }
}

impl BlockHeader {
    /// The two header offsets are valid scalar encodings.
    pub open spec fn wf(self) -> bool {
        scalar_ok(self.total_kernel_offset@) && scalar_ok(self.total_script_offset@)
    }
}

impl AggregateBody {
    pub open spec fn wf(self) -> bool {
        &&& forall|i: int| 0 <= i < self.inputs@.len() ==> #[trigger] self.inputs@[i].wf()
        &&& forall|i: int| 0 <= i < self.outputs@.len() ==> #[trigger] self.outputs@[i].wf()
        &&& forall|i: int| 0 <= i < self.kernels@.len() ==> #[trigger] self.kernels@[i].wf()
    }
}

impl Block {
    pub open spec fn wf(self) -> bool {
        self.header.wf() && self.body.wf()
    }

    /// Runtime test of `wf`, for callers that hold a block whose encodings
    /// have not been validated yet.
    pub fn check_wf(&self) -> (r: bool)
        ensures
            r == self.wf(),
    {
        if !scalar_check(&self.header.total_kernel_offset) {
            return false;
        }
        if !scalar_check(&self.header.total_script_offset) {
            return false;
        }
        let mut i: usize = 0;
        while i < self.body.inputs.len()
            invariant
                i <= self.body.inputs@.len(),
                forall|j: int| 0 <= j < i ==> #[trigger] self.body.inputs@[j].wf(),
            decreases self.body.inputs@.len() - i,
        {
            let inp = &self.body.inputs[i];
            if !point_check(&inp.commitment) || !point_check(&inp.script_public_key) {
                proof {
                    assert(!self.body.inputs@[i as int].wf());
                }
                return false;
            }
            i = i + 1;
        }
        let mut i: usize = 0;
        while i < self.body.outputs.len()
            invariant
                i <= self.body.outputs@.len(),
                forall|j: int| 0 <= j < i ==> #[trigger] self.body.outputs@[j].wf(),
            decreases self.body.outputs@.len() - i,
        {
            let o = &self.body.outputs[i];
            if !point_check(&o.commitment) || !point_check(&o.sender_offset_public_key) {
                proof {
                    assert(!self.body.outputs@[i as int].wf());
                }
                return false;
            }
            i = i + 1;
        }
        let mut i: usize = 0;
        while i < self.body.kernels.len()
            invariant
                i <= self.body.kernels@.len(),
                forall|j: int| 0 <= j < i ==> #[trigger] self.body.kernels@[j].wf(),
            decreases self.body.kernels@.len() - i,
        {
            let k = &self.body.kernels[i];
            if !point_check(&k.excess) {
                proof {
                    assert(!self.body.kernels@[i as int].wf());
                }
                return false;
            }
            i = i + 1;
        }
        true
    }
}

/// Equality of two 32-byte strings.
pub fn bytes32_eq(a: &[u8; 32], b: &[u8; 32]) -> (r: bool)
    ensures
        r == (a@ == b@),
{
    let mut i: usize = 0;
    while i < 32
        invariant
            i <= 32,
            forall|j: int| 0 <= j < i ==> a@[j] == b@[j],
        decreases 32 - i,
    {
        if a[i] != b[i] {
            return false;
        }
        i = i + 1;
    }
    proof {
        assert(a@ =~= b@);
    }
    true
}

/// Appends a 32-byte string to a buffer.
fn push_bytes32(v: &mut Vec<u8>, a: &[u8; 32])
    ensures
        final(v)@ == old(v)@ + a@,
{
    let mut i: usize = 0;
    while i < 32
        invariant
            i <= 32,
            v@ == old(v)@ + a@.take(i as int),
        decreases 32 - i,
    {
        v.push(a[i]);
        proof {
            assert(old(v)@ + a@.take(i + 1) =~= (old(v)@ + a@.take(i as int)).push(a@[i as int]));
        }
        i = i + 1;
    }
    proof {
        assert(a@.take(32) =~= a@);
    }
}

/// The little-endian encoding of a length or other 64-bit field.
pub open spec fn enc_u64(x: u64) -> Seq<u8> {
    spec_u64_to_le_bytes(x)
}

/// Appends the little-endian encoding of `x` to a buffer.
fn push_u64(v: &mut Vec<u8>, x: u64)
    ensures
        final(v)@ == old(v)@ + enc_u64(x),
{
    let bytes = u64_to_le_bytes(x);
    let mut i: usize = 0;
    while i < bytes.len()
        invariant
            bytes@ == enc_u64(x),
            i <= bytes@.len(),
            v@ == old(v)@ + bytes@.take(i as int),
        decreases bytes@.len() - i,
    {
        v.push(bytes[i]);
        proof {
            assert(old(v)@ + bytes@.take(i + 1) =~= (old(v)@ + bytes@.take(i as int)).push(
                bytes@[i as int],
            ));
        }
        i = i + 1;
    }
    proof {
        assert(bytes@.take(bytes@.len() as int) =~= bytes@);
    }
}

/// A length-prefixed variable-size field: eight little-endian length bytes,
/// then the bytes themselves.
pub open spec fn enc_var(b: Seq<u8>) -> Seq<u8>
    recommends
        b.len() <= u64::MAX,
{
    enc_u64(b.len() as u64) + b
}

/// Appends a length-prefixed variable-size field to a buffer.
fn push_var_bytes(v: &mut Vec<u8>, b: &Vec<u8>)
    ensures
        final(v)@ == old(v)@ + enc_var(b@),
{
    push_u64(v, b.len() as u64);
    let ghost mid = v@;
    let mut i: usize = 0;
    while i < b.len()
        invariant
            i <= b@.len(),
            v@ == mid + b@.take(i as int),
        decreases b@.len() - i,
    {
        v.push(b[i]);
        proof {
            assert(mid + b@.take(i + 1) =~= (mid + b@.take(i as int)).push(b@[i as int]));
        }
        i = i + 1;
    }
    proof {
        assert(b@.take(b@.len() as int) =~= b@);
        assert(v@ =~= old(v)@ + enc_var(b@));
    }
}

/// The canonical encoding of a kernel, under which kernels are ordered.
pub open spec fn enc_kernel(k: TransactionKernel) -> Seq<u8> {
    seq![k.features] + enc_u64(k.fee) + enc_u64(k.lock_height) + k.excess@ + k.sig_nonce@
        + k.sig_signature@
}

/// The canonical encoding of an output, under which outputs are ordered and
/// from which the output's identity hash is computed.
pub open spec fn enc_output(o: TransactionOutput) -> Seq<u8>
    recommends
        o.script@.len() <= u64::MAX,
        o.range_proof@.len() <= u64::MAX,
        o.covenant@.len() <= u64::MAX,
{
    seq![o.features] + o.commitment@ + enc_var(o.script@) + o.sender_offset_public_key@
        + o.meta_nonce@ + o.meta_signature@ + enc_var(o.range_proof@) + enc_var(o.covenant@)
}

/// The canonical encoding of an input, under which inputs are ordered.
pub open spec fn enc_input(i: TransactionInput) -> Seq<u8>
    recommends
        i.script@.len() <= u64::MAX,
        i.input_data@.len() <= u64::MAX,
{
    seq![i.features] + enc_u64(i.maturity) + i.commitment@ + enc_var(i.script@) + enc_var(
        i.input_data@,
    ) + i.script_public_key@ + i.sender_offset_public_key@ + i.sig_nonce@ + i.sig_signature@
        + i.output_hash@
}

impl TransactionKernel {
    pub fn encode(&self) -> (r: Vec<u8>)
        ensures
            r@ == enc_kernel(*self),
    {
        let mut v: Vec<u8> = Vec::new();
        v.push(self.features);
        proof {
            assert(v@ =~= seq![self.features]);
        }
        push_u64(&mut v, self.fee);
        push_u64(&mut v, self.lock_height);
        push_bytes32(&mut v, &self.excess);
        push_bytes32(&mut v, &self.sig_nonce);
        push_bytes32(&mut v, &self.sig_signature);
        v
    }

    /// The challenge input its excess signature commits to.
    pub open spec fn spec_challenge_input(self) -> Seq<u8> {
        self.sig_nonce@ + self.excess@ + seq![self.features] + enc_u64(self.fee) + enc_u64(
            self.lock_height,
        )
    }

    /// The 64-byte challenge of the excess signature.
    pub open spec fn spec_challenge(self) -> Seq<u8> {
        blake2b_512_bytes(self.spec_challenge_input())
    }

    /// Computes the challenge bytes the excess signature is verified against.
    pub fn signature_challenge(&self) -> (r: Vec<u8>)
        ensures
            r@ == self.spec_challenge(),
    {
        let mut v: Vec<u8> = Vec::new();
        push_bytes32(&mut v, &self.sig_nonce);
        proof {
            assert(Seq::<u8>::empty() + self.sig_nonce@ =~= self.sig_nonce@);
        }
        push_bytes32(&mut v, &self.excess);
        v.push(self.features);
        proof {
            assert(v@ =~= self.sig_nonce@ + self.excess@ + seq![self.features]);
        }
        push_u64(&mut v, self.fee);
        push_u64(&mut v, self.lock_height);
        blake2b_512(v.as_slice())
    }

    /// Whether the excess signature verifies: a Schnorr signature under the
    /// excess itself, read as a public key.
    pub open spec fn spec_sig_ok(self) -> bool {
        schnorr_ok(self.excess@, self.sig_nonce@, self.sig_signature@, self.spec_challenge())
    }

    pub fn verify_signature(&self) -> (r: bool)
        ensures
            r == self.spec_sig_ok(),
    {
        let challenge = self.signature_challenge();
        crate::crypto::schnorr_check(
            &self.excess,
            &self.sig_nonce,
            &self.sig_signature,
            challenge.as_slice(),
        )
    }
}

impl TransactionOutput {
    pub fn encode(&self) -> (r: Vec<u8>)
        ensures
            r@ == enc_output(*self),
    {
        let mut v: Vec<u8> = Vec::new();
        v.push(self.features);
        proof {
            assert(v@ =~= seq![self.features]);
        }
        push_bytes32(&mut v, &self.commitment);
        push_var_bytes(&mut v, &self.script);
        push_bytes32(&mut v, &self.sender_offset_public_key);
        push_bytes32(&mut v, &self.meta_nonce);
        push_bytes32(&mut v, &self.meta_signature);
        push_var_bytes(&mut v, &self.range_proof);
        push_var_bytes(&mut v, &self.covenant);
        v
    }

    /// The identity hash of an output: the digest of its canonical encoding.
    /// Inputs reference the output they spend by this hash, and the chain's
    /// set of known outputs is keyed by it.
    pub open spec fn spec_hash(self) -> Seq<u8> {
        blake2b_256_bytes(enc_output(self))
    }

    pub fn hash(&self) -> (r: [u8; 32])
        ensures
            r@ == self.spec_hash(),
    {
        let enc = self.encode();
        blake2b_256(enc.as_slice())
    }

    /// The challenge input the metadata signature commits to.
    pub open spec fn spec_meta_challenge_input(self) -> Seq<u8> {
        self.meta_nonce@ + self.sender_offset_public_key@ + seq![self.features] + self.commitment@
            + enc_var(self.script@) + enc_var(self.covenant@)
    }

    /// The 64-byte challenge of the metadata signature.
    pub open spec fn spec_meta_challenge(self) -> Seq<u8> {
        blake2b_512_bytes(self.spec_meta_challenge_input())
    }

    /// Computes the challenge bytes the metadata signature is verified
    /// against.
    pub fn metadata_challenge(&self) -> (r: Vec<u8>)
        ensures
            r@ == self.spec_meta_challenge(),
    {
        let mut v: Vec<u8> = Vec::new();
        push_bytes32(&mut v, &self.meta_nonce);
        proof {
            assert(Seq::<u8>::empty() + self.meta_nonce@ =~= self.meta_nonce@);
        }
        push_bytes32(&mut v, &self.sender_offset_public_key);
        v.push(self.features);
        proof {
            assert(v@ =~= self.meta_nonce@ + self.sender_offset_public_key@ + seq![self.features]);
        }
        push_bytes32(&mut v, &self.commitment);
        push_var_bytes(&mut v, &self.script);
        push_var_bytes(&mut v, &self.covenant);
        blake2b_512(v.as_slice())
    }

    /// Whether the metadata signature verifies: a Schnorr signature under the
    /// sender-offset public key.
    pub open spec fn spec_meta_sig_ok(self) -> bool {
        schnorr_ok(
            self.sender_offset_public_key@,
            self.meta_nonce@,
            self.meta_signature@,
            self.spec_meta_challenge(),
        )
    }

    pub fn verify_metadata_signature(&self) -> (r: bool)
        ensures
            r == self.spec_meta_sig_ok(),
    {
        let challenge = self.metadata_challenge();
        crate::crypto::schnorr_check(
            &self.sender_offset_public_key,
            &self.meta_nonce,
            &self.meta_signature,
            challenge.as_slice(),
        )
    }

    /// Whether the range proof verifies for this output's commitment.
    pub open spec fn spec_range_proof_ok(self) -> bool {
        crate::crypto::range_proof_ok(self.commitment@, self.range_proof@)
    }

    pub fn verify_range_proof(&self) -> (r: bool)
        ensures
            r == self.spec_range_proof_ok(),
    {
        crate::crypto::range_proof_check(&self.commitment, self.range_proof.as_slice())
    }
}

impl TransactionInput {
    pub fn encode(&self) -> (r: Vec<u8>)
        ensures
            r@ == enc_input(*self),
    {
        let mut v: Vec<u8> = Vec::new();
        v.push(self.features);
        proof {
            assert(v@ =~= seq![self.features]);
        }
        push_u64(&mut v, self.maturity);
        push_bytes32(&mut v, &self.commitment);
        push_var_bytes(&mut v, &self.script);
        push_var_bytes(&mut v, &self.input_data);
        push_bytes32(&mut v, &self.script_public_key);
        push_bytes32(&mut v, &self.sender_offset_public_key);
        push_bytes32(&mut v, &self.sig_nonce);
        push_bytes32(&mut v, &self.sig_signature);
        push_bytes32(&mut v, &self.output_hash);
        v
    }

    /// The challenge input the script signature commits to.
    pub open spec fn spec_script_challenge_input(self) -> Seq<u8> {
        self.sig_nonce@ + self.script_public_key@ + self.commitment@ + enc_var(self.script@)
            + enc_var(self.input_data@)
    }

    /// The 64-byte challenge of the script signature.
    pub open spec fn spec_script_challenge(self) -> Seq<u8> {
        blake2b_512_bytes(self.spec_script_challenge_input())
    }

    /// Computes the challenge bytes the script signature is verified against.
    pub fn script_challenge(&self) -> (r: Vec<u8>)
        ensures
            r@ == self.spec_script_challenge(),
    {
        let mut v: Vec<u8> = Vec::new();
        push_bytes32(&mut v, &self.sig_nonce);
        proof {
            assert(Seq::<u8>::empty() + self.sig_nonce@ =~= self.sig_nonce@);
        }
        push_bytes32(&mut v, &self.script_public_key);
        push_bytes32(&mut v, &self.commitment);
        push_var_bytes(&mut v, &self.script);
        push_var_bytes(&mut v, &self.input_data);
        blake2b_512(v.as_slice())
    }

    /// Whether the script runs and its signature verifies: a Schnorr
    /// signature under the input's script public key. On success the script
    /// yields that public key, which the caller aggregates.
    pub open spec fn spec_script_ok(self) -> bool {
        schnorr_ok(
            self.script_public_key@,
            self.sig_nonce@,
            self.sig_signature@,
            self.spec_script_challenge(),
        )
    }

    /// Runs the input script and verifies the script signature; on success
    /// returns the script public key the script yields.
    pub fn run_and_verify_script(&self) -> (r: Option<[u8; 32]>)
        ensures
            self.spec_script_ok() ==> r == Some(self.script_public_key),
            !self.spec_script_ok() ==> r is None,
    {
        let challenge = self.script_challenge();
        if crate::crypto::schnorr_check(
            &self.script_public_key,
            &self.sig_nonce,
            &self.sig_signature,
            challenge.as_slice(),
        ) {
            Some(self.script_public_key)
        } else {
            None
        }
    }
}

impl Default for KernelSum {
    /// The empty aggregate: the identity point and zero fees.
    fn default() -> (r: Self)
        ensures
            r.sum@ == crate::crypto::zero_32(),
            r.fees == 0,
    {
        KernelSum { sum: crate::crypto::pt_identity(), fees: 0 }
    }
}

} // verus!
