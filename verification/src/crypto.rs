//! Curve and hash primitives, supplied by outside cryptography crates.
//!
//! Every value that crosses this boundary is a plain byte string: a curve
//! point or a Pedersen commitment is carried as its canonical 32-byte
//! Ristretto encoding, a scalar as its canonical little-endian encoding.
//! The result of each outside call is a function of its arguments alone,
//! so it is given an uninterpreted name that the validator's contracts
//! build on.

use vstd::prelude::*;

use digest::Digest;
use tari_crypto::commitment::HomomorphicCommitmentFactory;
use tari_crypto::keys::PublicKey;
use tari_crypto::range_proof::RangeProofService;
use tari_crypto::ristretto::bulletproofs_plus::BulletproofsPlusService;
use tari_crypto::ristretto::pedersen::extended_commitment_factory::ExtendedPedersenCommitmentFactory;
use tari_crypto::ristretto::pedersen::PedersenCommitment;
use tari_crypto::ristretto::{RistrettoPublicKey, RistrettoSchnorr, RistrettoSecretKey};
use tari_utilities::ByteArray;

verus! {

/// Whether a 32-byte string is the canonical encoding of a Ristretto point.
pub uninterp spec fn point_ok(b: Seq<u8>) -> bool;

/// Whether a 32-byte string is the canonical encoding of a Ristretto scalar.
pub uninterp spec fn scalar_ok(b: Seq<u8>) -> bool;

/// Encoding of the sum of the two points encoded by `a` and `b`.
pub uninterp spec fn pt_add_bytes(a: Seq<u8>, b: Seq<u8>) -> Seq<u8>;

/// Encoding of the difference of the two points encoded by `a` and `b`.
pub uninterp spec fn pt_sub_bytes(a: Seq<u8>, b: Seq<u8>) -> Seq<u8>;

/// Encoding of the Pedersen commitment `k.G + v.H` for the scalar encoded
/// by `k` and the value `v`.
pub uninterp spec fn commit_bytes(k: Seq<u8>, v: u64) -> Seq<u8>;

/// Encoding of the public key `k.G` of the scalar encoded by `k`.
pub uninterp spec fn pubkey_bytes(k: Seq<u8>) -> Seq<u8>;

/// Whether the Schnorr signature `(nonce, sig)` over the 64-byte `challenge`
/// verifies under the public key encoded by `key`.
pub uninterp spec fn schnorr_ok(key: Seq<u8>, nonce: Seq<u8>, sig: Seq<u8>, challenge: Seq<u8>) -> bool;

/// Whether `proof` is a valid Bulletproofs+ range proof for the commitment
/// encoded by `commitment`, for 64-bit values under the default generators.
pub uninterp spec fn range_proof_ok(commitment: Seq<u8>, proof: Seq<u8>) -> bool;

/// The 32-byte Blake2b digest of `data`.
pub uninterp spec fn blake2b_256_bytes(data: Seq<u8>) -> Seq<u8>;

/// The 64-byte Blake2b digest of `data`.
pub uninterp spec fn blake2b_512_bytes(data: Seq<u8>) -> Seq<u8>;

/// The canonical encoding of the identity point: 32 zero bytes.
pub open spec fn zero_32() -> Seq<u8> {
    Seq::new(32, |i: int| 0u8)
}

/// Relies on tari_crypto's RistrettoPublicKey::from_canonical_bytes, which
/// succeeds exactly on canonical 32-byte Ristretto point encodings.
#[verifier::external_body]
pub(crate) fn point_check(b: &[u8; 32]) -> (r: bool)
    ensures
        r == point_ok(b@),
{
    RistrettoPublicKey::from_canonical_bytes(b).is_ok()
}

/// Relies on tari_crypto's RistrettoSecretKey::from_canonical_bytes, which
/// succeeds exactly on canonical 32-byte scalar encodings.
#[verifier::external_body]
pub(crate) fn scalar_check(b: &[u8; 32]) -> (r: bool)
    ensures
        r == scalar_ok(b@),
{
    RistrettoSecretKey::from_canonical_bytes(b).is_ok()
}

/// Relies on tari_crypto's RistrettoPublicKey::default, which is the identity
/// point; its canonical encoding is 32 zero bytes, as the crate's own tests
/// show, and it is accepted back by from_canonical_bytes.
#[verifier::external_body]
pub(crate) fn pt_identity() -> (r: [u8; 32])
    ensures
        r@ == zero_32(),
        point_ok(r@),
{
    let p = RistrettoPublicKey::default();
    let mut out = [0u8; 32];
    out.copy_from_slice(p.as_bytes());
    out
}

/// Relies on the Add impl for tari_crypto's RistrettoPublicKey: point
/// addition on the curve; the sum of two valid points is a valid point.
#[verifier::external_body]
pub(crate) fn pt_add(a: &[u8; 32], b: &[u8; 32]) -> (r: [u8; 32])
    requires
        point_ok(a@),
        point_ok(b@),
    ensures
        r@ == pt_add_bytes(a@, b@),
        point_ok(r@),
{
    let pa = RistrettoPublicKey::from_canonical_bytes(a).expect("canonical point");
    let pb = RistrettoPublicKey::from_canonical_bytes(b).expect("canonical point");
    let sum = &pa + &pb;
    let mut out = [0u8; 32];
    out.copy_from_slice(sum.as_bytes());
    out
}

/// Relies on the Sub impl for tari_crypto's RistrettoPublicKey: point
/// subtraction on the curve; the difference of two valid points is a valid
/// point.
#[verifier::external_body]
pub(crate) fn pt_sub(a: &[u8; 32], b: &[u8; 32]) -> (r: [u8; 32])
    requires
        point_ok(a@),
        point_ok(b@),
    ensures
        r@ == pt_sub_bytes(a@, b@),
        point_ok(r@),
{
    let pa = RistrettoPublicKey::from_canonical_bytes(a).expect("canonical point");
    let pb = RistrettoPublicKey::from_canonical_bytes(b).expect("canonical point");
    let diff = &pa - &pb;
    let mut out = [0u8; 32];
    out.copy_from_slice(diff.as_bytes());
    out
}

/// Relies on tari_crypto's ExtendedPedersenCommitmentFactory::commit_value
/// under the default generators: the commitment `k.G + v.H`, a valid point.
#[verifier::external_body]
pub(crate) fn pedersen_commit(k: &[u8; 32], v: u64) -> (r: [u8; 32])
    requires
        scalar_ok(k@),
    ensures
        r@ == commit_bytes(k@, v),
        point_ok(r@),
{
    let key = RistrettoSecretKey::from_canonical_bytes(k).expect("canonical scalar");
    let factory = ExtendedPedersenCommitmentFactory::default();
    let c = factory.commit_value(&key, v);
    let mut out = [0u8; 32];
    out.copy_from_slice(c.as_bytes());
    out
}

/// Relies on tari_crypto's RistrettoPublicKey::from_secret_key: the public
/// key `k.G` of a scalar, a valid point.
#[verifier::external_body]
pub(crate) fn pubkey_of_scalar(k: &[u8; 32]) -> (r: [u8; 32])
    requires
        scalar_ok(k@),
    ensures
        r@ == pubkey_bytes(k@),
        point_ok(r@),
{
    let key = RistrettoSecretKey::from_canonical_bytes(k).expect("canonical scalar");
    let p = RistrettoPublicKey::from_secret_key(&key);
    let mut out = [0u8; 32];
    out.copy_from_slice(p.as_bytes());
    out
}

/// Relies on tari_crypto's SchnorrSignature::verify_raw_uniform: whether
/// `s.G == R + e.K` for the challenge scalar `e` derived from the challenge
/// bytes by wide reduction. Malformed key, nonce or signature bytes verify
/// as false, as does a challenge that is not 64 bytes long.
#[verifier::external_body]
pub(crate) fn schnorr_check(key: &[u8; 32], nonce: &[u8; 32], sig: &[u8; 32], challenge: &[u8]) -> (r: bool)
    ensures
        r == schnorr_ok(key@, nonce@, sig@, challenge@),
{
    match (
        RistrettoPublicKey::from_canonical_bytes(key),
        RistrettoPublicKey::from_canonical_bytes(nonce),
        RistrettoSecretKey::from_canonical_bytes(sig),
    ) {
        (Ok(k), Ok(n), Ok(s)) => RistrettoSchnorr::new(n, s).verify_raw_uniform(&k, challenge),
        _ => false,
    }
}

/// Relies on tari_crypto's BulletproofsPlusService::verify for 64-bit values
/// with aggregation factor 1 under the default extended Pedersen generators.
/// A proof or commitment that does not parse verifies as false.
#[verifier::external_body]
pub(crate) fn range_proof_check(commitment: &[u8; 32], proof: &[u8]) -> (r: bool)
    ensures
        r == range_proof_ok(commitment@, proof@),
{
    match (
        PedersenCommitment::from_canonical_bytes(commitment),
        BulletproofsPlusService::init(64, 1, ExtendedPedersenCommitmentFactory::default()),
    ) {
        (Ok(c), Ok(svc)) => svc.verify(&proof.to_vec(), &c),
        _ => false,
    }
}

/// Relies on blake2's Blake2b256: the 32-byte Blake2b digest of the input.
#[verifier::external_body]
pub(crate) fn blake2b_256(data: &[u8]) -> (r: [u8; 32])
    ensures
        r@ == blake2b_256_bytes(data@),
{
    let mut out = [0u8; 32];
    out.copy_from_slice(&blake2::Blake2b256::digest(data));
    out
}

/// Relies on blake2's Blake2b512: the 64-byte Blake2b digest of the input.
#[verifier::external_body]
pub(crate) fn blake2b_512(data: &[u8]) -> (r: Vec<u8>)
    ensures
        r@ == blake2b_512_bytes(data@),
        r@.len() == 64,
{
    blake2::Blake2b512::digest(data).to_vec()
}

} // verus!
