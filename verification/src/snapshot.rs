//! A read snapshot of the chain database, reduced to what the validator
//! consumes: the set of unspent output hashes and the set of all known
//! output hashes. The caller materialises it from its database at one
//! logical chain tip; the validator never writes.

use vstd::prelude::*;

use crate::entities::bytes32_eq;

verus! {

/// Whether a sequence of 32-byte hashes contains `h`.
pub open spec fn hashes_contain(s: Seq<[u8; 32]>, h: Seq<u8>) -> bool {
    exists|i: int| 0 <= i < s.len() && s[i]@ == h
}

/// A read-only view of the chain at one tip.
#[derive(Clone, Debug)]
pub struct ChainSnapshot {
    /// Identity hashes of the outputs that exist and are unspent.
    pub utxo_hashes: Vec<[u8; 32]>,
    /// Identity hashes of every output the chain has ever seen, spent or
    /// unspent; used for the duplicate-output check.
    pub txo_hashes: Vec<[u8; 32]>,
}

/// Whether `h` occurs in `hashes`.
pub fn hashes_lookup(hashes: &Vec<[u8; 32]>, h: &[u8; 32]) -> (r: bool)
    ensures
        r == hashes_contain(hashes@, h@),
{
    let mut i: usize = 0;
    while i < hashes.len()
        invariant
            i <= hashes@.len(),
            forall|j: int| 0 <= j < i ==> hashes@[j]@ != h@,
        decreases hashes@.len() - i,
    {
        if bytes32_eq(&hashes[i], h) {
            return true;
        }
        i = i + 1;
    }
    false
}

impl ChainSnapshot {
    /// Whether an unspent output with identity hash `h` exists.
    pub open spec fn spec_is_utxo(self, h: Seq<u8>) -> bool {
        hashes_contain(self.utxo_hashes@, h)
    }

    /// Whether any output with identity hash `h` is known to the chain.
    pub open spec fn spec_has_txo(self, h: Seq<u8>) -> bool {
        hashes_contain(self.txo_hashes@, h)
    }

    /// Looks up `h` among the unspent outputs, as the input check consumes
    /// the database's read transaction.
    pub fn is_utxo(&self, h: &[u8; 32]) -> (r: bool)
        ensures
            r == self.spec_is_utxo(h@),
    {
        hashes_lookup(&self.utxo_hashes, h)
    }

    /// Looks up `h` among all known outputs, as the duplicate check consumes
    /// the database's read transaction.
    pub fn has_txo(&self, h: &[u8; 32]) -> (r: bool)
        ensures
            r == self.spec_has_txo(h@),
    {
        hashes_lookup(&self.txo_hashes, h)
    }
}

} // verus!
