//! Commands entering a partition, their acknowledgement policy, and the
//! effects staged while applying them.
//!
//! Producers deliver at least once.  Each command therefore carries an
//! acknowledgement mode: `Ack` for producers that already guarantee ordering,
//! `Dedup` for producers whose deliveries must be deduplicated by a
//! per-source monotonic sequence number, or `NoAck` for neither.

use vstd::prelude::*;

use crate::identifiers::{FullInvocationId, FullInvocationIdModel, InvocationId};

verus! {

/// A logical producer lane whose deliveries are ordered by sequence number:
/// either another partition (cross-partition shuffle traffic) or an external
/// ingress client.
#[derive(Debug, Clone, PartialEq, Eq, Hash)]
pub enum SequenceNumberSource {
    /// Traffic shuffled from another partition.
    Partition(u64),
    /// Traffic from an external ingress client.
    Ingress(String),
}

/// Mathematical model of a producer lane.
pub enum SourceModel {
    Partition(u64),
    Ingress(Seq<char>),
}

impl View for SequenceNumberSource {
    type V = SourceModel;

    open spec fn view(&self) -> SourceModel {
        match self {
            SequenceNumberSource::Partition(p) => SourceModel::Partition(*p),
            SequenceNumberSource::Ingress(s) => SourceModel::Ingress(s@),
        }
    }
}

impl SequenceNumberSource {
    /// Whether two lanes are the same lane.
    pub fn same_source(&self, other: &SequenceNumberSource) -> (r: bool)
        ensures
            r == (self@ == other@),
    {
        match (self, other) {
            (SequenceNumberSource::Partition(a), SequenceNumberSource::Partition(b)) => *a == *b,
            (SequenceNumberSource::Ingress(a), SequenceNumberSource::Ingress(b)) => *a == *b,
            _ => false,
        }
    }

    /// A by-value copy of this lane.
    pub fn duplicate(&self) -> (r: SequenceNumberSource)
        ensures
            r == self,
    {
        match self {
            SequenceNumberSource::Partition(p) => SequenceNumberSource::Partition(*p),
            SequenceNumberSource::Ingress(s) => SequenceNumberSource::Ingress(s.clone()),
        }
    }
}

/// The wire-level descriptor a dedup-guarded command carries: which producer
/// lane it came from and its sequence number on that lane.
#[derive(Debug, Clone, PartialEq, Eq)]
pub enum DeduplicationSource {
    /// Delivered by the shuffle of another partition.
    Shuffle {
        /// The partition that produced the command.
        producing_partition_id: u64,
        /// Position on the producer's lane.
        seq_number: u64,
    },
    /// Delivered by an external ingress client.
    Ingress {
        /// Identifies the ingress client.
        source_id: String,
        /// Position on the producer's lane.
        seq_number: u64,
    },
}

/// Mathematical model of a deduplication descriptor.
pub enum DeduplicationSourceModel {
    Shuffle { producing_partition_id: u64, seq_number: u64 },
    Ingress { source_id: Seq<char>, seq_number: u64 },
}

impl View for DeduplicationSource {
    type V = DeduplicationSourceModel;

    open spec fn view(&self) -> DeduplicationSourceModel {
        match self {
            DeduplicationSource::Shuffle { producing_partition_id, seq_number } => (
            DeduplicationSourceModel::Shuffle {
                producing_partition_id: *producing_partition_id,
                seq_number: *seq_number,
            }),
            DeduplicationSource::Ingress { source_id, seq_number } => (
            DeduplicationSourceModel::Ingress { source_id: source_id@, seq_number: *seq_number }),
        }
    }
}

impl DeduplicationSourceModel {
    /// The producer lane this descriptor maps to: a shuffle descriptor maps
    /// to the producing partition's lane, an ingress descriptor to the
    /// client's lane.
    pub open spec fn source(self) -> SourceModel {
        match self {
            DeduplicationSourceModel::Shuffle { producing_partition_id, .. } => (
            SourceModel::Partition(producing_partition_id)),
            DeduplicationSourceModel::Ingress { source_id, .. } => (SourceModel::Ingress(
                source_id,
            )),
        }
    }

    /// The delivery's position on its lane.
    pub open spec fn seq_number(self) -> u64 {
        match self {
            DeduplicationSourceModel::Shuffle { seq_number, .. } => seq_number,
            DeduplicationSourceModel::Ingress { seq_number, .. } => seq_number,
        }
    }
}

impl DeduplicationSource {
    /// The producer lane this descriptor maps to.
    pub fn to_source(&self) -> (r: SequenceNumberSource)
        ensures
            r@ == self@.source(),
    {
        match self {
            DeduplicationSource::Shuffle { producing_partition_id, .. } => (
            SequenceNumberSource::Partition(*producing_partition_id)),
            DeduplicationSource::Ingress { source_id, .. } => (SequenceNumberSource::Ingress(
                source_id.clone(),
            )),
        }
    }

    /// The delivery's position on its lane.
    pub fn seq_number(&self) -> (r: u64)
        ensures
            r == self@.seq_number(),
    {
        match self {
            DeduplicationSource::Shuffle { seq_number, .. } => *seq_number,
            DeduplicationSource::Ingress { seq_number, .. } => *seq_number,
        }
    }

    /// The acknowledgement response for this delivery.
    pub fn acknowledge(&self) -> (r: AckResponse)
        ensures
            r@ == (AckResponseModel::Acknowledge {
                source: self@.source(),
                seq_number: self@.seq_number(),
            }),
    {
        AckResponse::Acknowledge { source: self.to_source(), seq_number: self.seq_number() }
    }

    /// The duplicate response for this delivery, carrying the sequence
    /// number the ledger already holds for the lane.
    pub fn duplicate(&self, last_known_seq_number: u64) -> (r: AckResponse)
        ensures
            r@ == (AckResponseModel::Duplicate {
                source: self@.source(),
                seq_number: self@.seq_number(),
                last_known_seq_number,
            }),
    {
        AckResponse::Duplicate {
            source: self.to_source(),
            seq_number: self.seq_number(),
            last_known_seq_number,
        }
    }
}

/// Where an `Ack`-mode command's acknowledgement goes: the producer lane and
/// the delivery it acknowledges.
#[derive(Debug, Clone, PartialEq, Eq)]
pub struct AckTarget {
    /// The producer lane to answer.
    pub source: SequenceNumberSource,
    /// The delivery being acknowledged.
    pub seq_number: u64,
}

/// Mathematical model of an acknowledgement target.
pub struct AckTargetModel {
    pub source: SourceModel,
    pub seq_number: u64,
}

impl View for AckTarget {
    type V = AckTargetModel;

    open spec fn view(&self) -> AckTargetModel {
        AckTargetModel { source: self.source@, seq_number: self.seq_number }
    }
}

impl AckTarget {
    /// The acknowledgement response addressed to this target.
    pub fn acknowledge(&self) -> (r: AckResponse)
        ensures
            r@ == (AckResponseModel::Acknowledge {
                source: self@.source,
                seq_number: self@.seq_number,
            }),
    {
        AckResponse::Acknowledge { source: self.source.duplicate(), seq_number: self.seq_number }
    }
}

/// A response message destined back to an originating producer.
#[derive(Debug, Clone, PartialEq, Eq)]
pub enum AckResponse {
    /// The delivery was applied.
    Acknowledge { source: SequenceNumberSource, seq_number: u64 },
    /// The delivery was a duplicate or stale; the ledger already holds
    /// `last_known_seq_number` for the lane.
    Duplicate { source: SequenceNumberSource, seq_number: u64, last_known_seq_number: u64 },
}

/// Mathematical model of a producer response.
pub enum AckResponseModel {
    Acknowledge { source: SourceModel, seq_number: u64 },
    Duplicate { source: SourceModel, seq_number: u64, last_known_seq_number: u64 },
}

impl View for AckResponse {
    type V = AckResponseModel;

    open spec fn view(&self) -> AckResponseModel {
        match self {
            AckResponse::Acknowledge { source, seq_number } => (AckResponseModel::Acknowledge {
                source: source@,
                seq_number: *seq_number,
            }),
            AckResponse::Duplicate { source, seq_number, last_known_seq_number } => (
            AckResponseModel::Duplicate {
                source: source@,
                seq_number: *seq_number,
                last_known_seq_number: *last_known_seq_number,
            }),
        }
    }
}

/// Per-command acknowledgement policy.
#[derive(Debug, Clone, PartialEq, Eq)]
pub enum AckMode {
    /// Acknowledge without consulting the dedup ledger; for producers that
    /// already guarantee ordering and non-duplication.
    Ack(AckTarget),
    /// Consult and update the dedup ledger before applying.
    Dedup(DeduplicationSource),
    /// No ledger interaction and no acknowledgement.
    NoAck,
}

/// Mathematical model of an acknowledgement policy.
pub enum AckModeModel {
    Ack(AckTargetModel),
    Dedup(DeduplicationSourceModel),
    NoAck,
}

impl View for AckMode {
    type V = AckModeModel;

    open spec fn view(&self) -> AckModeModel {
        match self {
            AckMode::Ack(t) => AckModeModel::Ack(t@),
            AckMode::Dedup(d) => AckModeModel::Dedup(d@),
            AckMode::NoAck => AckModeModel::NoAck,
        }
    }
}

/// The inner command the interpreter applies: an invocation step that
/// persists a value under one of the service instance's state keys.
#[derive(Debug, Clone, PartialEq, Eq)]
pub struct Command {
    /// The invocation the step belongs to.
    pub fid: FullInvocationId,
    /// State key of the service instance to write.
    pub state_key: Vec<u8>,
    /// Value to persist under the key.
    pub state_value: Vec<u8>,
}

/// Mathematical model of an inner command.
pub struct CommandModel {
    pub fid: FullInvocationIdModel,
    pub state_key: Seq<u8>,
    pub state_value: Seq<u8>,
}

impl View for Command {
    type V = CommandModel;

    open spec fn view(&self) -> CommandModel {
        CommandModel { fid: self.fid@, state_key: self.state_key@, state_value: self.state_value@ }
    }
}

/// An ordered command as delivered to a partition: the inner command plus
/// its acknowledgement mode.
#[derive(Debug, Clone, PartialEq, Eq)]
pub struct AckCommand {
    /// The command to apply.
    pub cmd: Command,
    /// How to acknowledge its delivery.
    pub ack_mode: AckMode,
}

/// Mathematical model of a delivered command.
pub struct AckCommandModel {
    pub cmd: CommandModel,
    pub ack_mode: AckModeModel,
}

impl View for AckCommand {
    type V = AckCommandModel;

    open spec fn view(&self) -> AckCommandModel {
        AckCommandModel { cmd: self.cmd@, ack_mode: self.ack_mode@ }
    }
}

impl AckCommand {
    /// Pairs a command with its acknowledgement mode.
    pub fn new(cmd: Command, ack_mode: AckMode) -> (r: AckCommand)
        ensures
            r == (AckCommand { cmd, ack_mode }),
    {
        AckCommand { cmd, ack_mode }
    }

    /// Splits the delivery into the command and its acknowledgement mode.
    pub fn into_inner(self) -> (r: (Command, AckMode))
        ensures
            r.0 == self.cmd,
            r.1 == self.ack_mode,
    {
        (self.cmd, self.ack_mode)
    }
}

/// How a command application relates to an enclosing trace span.
#[derive(Debug, Clone, Copy, PartialEq, Eq, Structural)]
pub enum SpanRelation {
    /// No relation to another span.
    NoRelation,
    /// Linked to the span of another invocation.
    Linked(InvocationId),
    /// Child of the span of another invocation.
    Parent(InvocationId),
}

/// One staged outbound action.
#[derive(Debug, Clone, PartialEq, Eq)]
pub enum Effect {
    /// A response message back to a producer.
    AckResponse(AckResponse),
    /// The command-specific record that an invocation step was applied.
    Invoked(InvocationId),
}

/// Mathematical model of a staged action.
pub enum EffectModel {
    AckResponse(AckResponseModel),
    Invoked(InvocationId),
}

impl View for Effect {
    type V = EffectModel;

    open spec fn view(&self) -> EffectModel {
        match self {
            Effect::AckResponse(r) => EffectModel::AckResponse(r@),
            Effect::Invoked(id) => EffectModel::Invoked(*id),
        }
    }
}

/// The ordered, append-only list of actions staged during one apply call.
/// They become observable only if the enclosing transaction commits.
#[derive(Debug, Clone, PartialEq, Eq)]
pub struct Effects {
    /// The staged actions, oldest first.
    pub list: Vec<Effect>,
}

impl View for Effects {
    type V = Seq<EffectModel>;

    open spec fn view(&self) -> Seq<EffectModel> {
        Seq::new(self.list@.len(), |i: int| self.list@[i]@)
    }
}

impl Effects {
    /// An empty effect list.
    pub fn new() -> (r: Effects)
        ensures
            r@ == Seq::<EffectModel>::empty(),
    {
        let r = Effects { list: Vec::new() };
        proof {
            assert(r@ =~= Seq::<EffectModel>::empty());
        }
        r
    }

    /// Stages a producer response.
    pub fn send_ack_response(&mut self, response: AckResponse)
        ensures
            final(self)@ == old(self)@.push(EffectModel::AckResponse(response@)),
    {
        let ghost before = self@;
        self.list.push(Effect::AckResponse(response));
        proof {
            assert(self@ =~= before.push(EffectModel::AckResponse(response@)));
        }
    }

    /// Stages the record that an invocation step was applied.
    pub fn record_invoked(&mut self, id: InvocationId)
        ensures
            final(self)@ == old(self)@.push(EffectModel::Invoked(id)),
    {
        let ghost before = self@;
        self.list.push(Effect::Invoked(id));
        proof {
            assert(self@ =~= before.push(EffectModel::Invoked(id)));
        }
    }

    /// How many actions are staged.
    pub fn len(&self) -> (r: usize)
        ensures
            r == self@.len(),
    {
        self.list.len()
    }
}

/// Errors of the storage boundary: an apply that raises one aborts in full,
/// staged effects included, and the caller retries the whole command.
#[derive(Debug, Clone, Copy, PartialEq, Eq, Structural)]
pub enum ApplyError {
    /// A transactional read or write failed.
    Storage,
}

} // verus!
