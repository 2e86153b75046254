//! Deterministic routing of a service instance key to a partition key.
//!
//! The partition key is a stable, non-cryptographic 64-bit hash of the key
//! bytes.  It must be bit-for-bit reproducible across processes and restarts;
//! changing the hash function is a breaking, migration-requiring change.

use std::hash::{Hash, Hasher};
use vstd::prelude::*;

verus! {

/// The 64-bit routing hash of a service instance key.  One fixed function of
/// the key bytes alone, identical in every process and on every machine.
pub uninterp spec fn partition_hash(key: Seq<u8>) -> u64;

/// Relies on xxhash_rust::xxh3::Xxh3 through std's Hasher protocol: feeding
/// the same bytes to a fresh default hasher always yields the same 64-bit
/// digest, with no per-process seed.
#[verifier::external_body]
pub(crate) fn compute_partition_key(key: &[u8]) -> (r: u64)
    ensures
        r == partition_hash(key@),
{
    let mut hasher = xxhash_rust::xxh3::Xxh3::default();
    key.hash(&mut hasher);
    hasher.finish()
}

} // verus!
