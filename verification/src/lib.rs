//! A concurrent-block-body validator for a Mimblewimble-style chain.
//!
//! Given a block whose header has already been validated, the library
//! decides whether the body (its inputs, outputs and kernels) satisfies
//! the consensus rules: signatures and range proofs verify, commitments
//! balance homomorphically, the script offset reconciles, the coinbase
//! rules hold, inputs spend existing unspent outputs, and the header's
//! Merkle-mountain-range roots match the recomputed ones.

pub mod checks;
pub mod crypto;
pub mod entities;
pub mod errors;
pub mod inputs;
pub mod kernels;
pub mod laws;
pub mod order;
pub mod outputs;
pub mod rules;
pub mod snapshot;
pub mod validator;
