//! Deterministic command-application core of a partitioned durable-execution
//! runtime: the identifier and partitioning model that routes work to
//! partitions, the per-source monotonic deduplication ledger, and the command
//! interpreter contract that turns an ordered command into persisted state and
//! staged outbound effects.

use vstd::prelude::*;

pub mod base64url;
pub mod codec;
pub mod commands;
pub mod identifiers;
pub mod interpreter;
pub mod lambda;
pub mod partitioner;
pub mod protocol;
pub mod state_keys;
pub mod storage;

verus! {

/// Identifies a member of a replication group.
pub type PeerId = u64;

/// Identifies the leader epoch of a replication group's leader.
pub type LeaderEpoch = u64;

/// Identifies the partition that owns a consecutive range of partition keys.
pub type PartitionId = u64;

/// The leader epoch of a given partition.
pub type PartitionLeaderEpoch = (PartitionId, LeaderEpoch);

/// Index of an entry within a partition's log.
pub type EntryIndex = u32;

/// Unique id of a service endpoint.
pub type EndpointId = String;

/// Routing key derived from a service instance key; identifies to which
/// partition a key belongs.
pub type PartitionKey = u64;

/// Incremental id defining the service revision.
pub type ServiceRevision = u32;

} // verus!
