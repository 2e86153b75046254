//! The command interpreter and its deduplicating wrapper.
//!
//! A command interpreter is a deterministic state-transition function: given
//! the same command applied against the same persisted state it produces the
//! same effects and the same final state, which is what makes replaying the
//! log after a failover safe.  The deduplicating wrapper composes any command
//! interpreter and gives at-most-once application over an at-least-once
//! delivery channel: a dedup-guarded command is applied only when its
//! sequence number is strictly above the ledger entry of its producer lane,
//! in the same transaction that records the new sequence number.

use vstd::prelude::*;

use crate::commands::{
    AckCommand, AckCommandModel, AckMode, AckModeModel, AckResponseModel, ApplyError, Command,
    CommandModel, DeduplicationSourceModel, EffectModel, Effects, SourceModel, SpanRelation,
};
use crate::identifiers::{FullInvocationId, FullInvocationIdModel, InvocationId};
use crate::state_keys::state_key_bytes;
use crate::storage::{PartitionTransaction, StoreModel};

verus! {

/// The model view of an apply call's return value.
pub open spec fn outcome_view(
    r: Result<(Option<FullInvocationId>, SpanRelation), ApplyError>,
) -> Result<(Option<FullInvocationIdModel>, SpanRelation), ApplyError> {
    match r {
        Ok((fid, span)) => Ok(
            (
                match fid {
                    Some(f) => Some(f@),
                    None => None,
                },
                span,
            ),
        ),
        Err(e) => Err(e),
    }
}

/// One abstract step of a command interpreter: the persisted state it leaves
/// behind, the effects it stages, and what the apply call returns.
pub struct StepModel {
    /// The persisted state after the step.
    pub store: StoreModel,
    /// The effects the step appends, oldest first.
    pub effects: Seq<EffectModel>,
    /// What the apply call returns.
    pub result: Result<(Option<FullInvocationIdModel>, SpanRelation), ApplyError>,
}

/// The command-interpreter capability: a deterministic state-transition
/// function from (command, persisted state) to (state, effects, result),
/// holding no state of its own across calls.
pub trait CommandInterpreter: Sized {
    /// The transition this interpreter computes.  It is a function of the
    /// command and the persisted state alone; replaying a command against
    /// the same state always gives the same step.
    spec fn step(&self, command: CommandModel, store: StoreModel) -> StepModel;

    /// Applies one command against the transaction, staging its effects.
    /// State changes, staged effects and the returned value are exactly the
    /// ones `step` describes.
    fn on_apply(
        &self,
        command: Command,
        effects: &mut Effects,
        transaction: &mut PartitionTransaction,
    ) -> (r: Result<(Option<FullInvocationId>, SpanRelation), ApplyError>)
        requires
            old(transaction).wf(),
        ensures
            final(transaction).wf(),
            final(transaction)@ == self.step(command@, old(transaction)@).store,
            final(effects)@ == old(effects)@ + self.step(command@, old(transaction)@).effects,
            outcome_view(r) == self.step(command@, old(transaction)@).result,
    ;
}

/// The transition of the base interpreter: persist the command's value under
/// the service instance's state key, record the invocation, and report the
/// invocation id the step belongs to.
pub open spec fn base_step(command: CommandModel, store: StoreModel) -> StepModel {
    StepModel {
        store: StoreModel {
            state: store.state.insert(
                state_key_bytes(
                    command.fid.service_id.partition_key,
                    command.fid.service_id.service_name,
                    command.fid.service_id.key,
                    command.state_key,
                ),
                command.state_value,
            ),
            dedup: store.dedup,
        },
        effects: seq![
            EffectModel::Invoked(
                InvocationId {
                    partition_key: command.fid.service_id.partition_key,
                    invocation_uuid: command.fid.invocation_uuid,
                },
            ),
        ],
        result: Ok((Some(command.fid), SpanRelation::NoRelation)),
    }
}

/// The command interpreter at the bottom of the stack: it turns a command
/// into one user-state write and one staged invocation record.
pub struct BaseCommandInterpreter;

impl BaseCommandInterpreter {
    /// The base interpreter; it holds no state across calls.
    pub fn new() -> BaseCommandInterpreter {
        BaseCommandInterpreter
    }
}

impl CommandInterpreter for BaseCommandInterpreter {
    open spec fn step(&self, command: CommandModel, store: StoreModel) -> StepModel {
        base_step(command, store)
    }

    fn on_apply(
        &self,
        command: Command,
        effects: &mut Effects,
        transaction: &mut PartitionTransaction,
    ) -> (r: Result<(Option<FullInvocationId>, SpanRelation), ApplyError>)
    {
        let ghost store0 = transaction@;
        let ghost effects0 = effects@;
        let id = command.fid.to_invocation_id();
        transaction.put_user_state(
            &command.fid.service_id,
            command.state_key.as_slice(),
            command.state_value.as_slice(),
        );
        effects.record_invoked(id);
        proof {
            let step = base_step(command@, store0);
            assert(transaction@.state =~= step.store.state);
            assert(transaction@.dedup =~= step.store.dedup);
            assert(effects@ =~= effects0 + step.effects);
        }
        Ok((Some(command.fid), SpanRelation::NoRelation))
    }
}

/// Whether a dedup-guarded delivery is a duplicate or stale against the
/// ledger: its sequence number is at or below the lane's last applied one.
/// Equality counts as duplication; a delivery is never re-applied.
pub open spec fn is_duplicate(store: StoreModel, ds: DeduplicationSourceModel) -> bool {
    store.dedup.contains_key(ds.source()) && ds.seq_number() <= store.dedup[ds.source()]
}

/// The transition of the deduplicating wrapper around an inner interpreter.
///
/// An `Ack` command stages its acknowledgement and is applied without any
/// ledger interaction.  A `Dedup` command is answered as a duplicate, with
/// state untouched and the inner interpreter never consulted, when the
/// ledger already covers its sequence number; otherwise the ledger entry is
/// raised to the new sequence number in the same transaction, the
/// acknowledgement is staged, and the command is applied.  A `NoAck` command
/// is applied directly.
pub open spec fn dedup_step<I: CommandInterpreter>(
    interpreter: &I,
    command: AckCommandModel,
    store: StoreModel,
) -> StepModel {
    match command.ack_mode {
        AckModeModel::Ack(target) => {
            let inner = interpreter.step(command.cmd, store);
            StepModel {
                store: inner.store,
                effects: seq![
                    EffectModel::AckResponse(
                        AckResponseModel::Acknowledge {
                            source: target.source,
                            seq_number: target.seq_number,
                        },
                    ),
                ] + inner.effects,
                result: inner.result,
            }
        },
        AckModeModel::Dedup(ds) => {
            if is_duplicate(store, ds) {
                StepModel {
                    store,
                    effects: seq![
                        EffectModel::AckResponse(
                            AckResponseModel::Duplicate {
                                source: ds.source(),
                                seq_number: ds.seq_number(),
                                last_known_seq_number: store.dedup[ds.source()],
                            },
                        ),
                    ],
                    result: Ok((None, SpanRelation::NoRelation)),
                }
            } else {
                let raised = StoreModel {
                    state: store.state,
                    dedup: store.dedup.insert(ds.source(), ds.seq_number()),
                };
                let inner = interpreter.step(command.cmd, raised);
                StepModel {
                    store: inner.store,
                    effects: seq![
                        EffectModel::AckResponse(
                            AckResponseModel::Acknowledge {
                                source: ds.source(),
                                seq_number: ds.seq_number(),
                            },
                        ),
                    ] + inner.effects,
                    result: inner.result,
                }
            }
        },
        AckModeModel::NoAck => interpreter.step(command.cmd, store),
    }
}

/// Wraps a command interpreter, deduplicating dedup-guarded commands per
/// producer lane before delegating to it.
pub struct DeduplicatingCommandInterpreter<I: CommandInterpreter> {
    /// The interpreter that applies non-duplicate commands.
    pub state_machine: I,
}

impl<I: CommandInterpreter> DeduplicatingCommandInterpreter<I> {
    /// Wraps `state_machine` with per-lane deduplication.
    pub fn new(state_machine: I) -> (r: DeduplicatingCommandInterpreter<I>)
        ensures
            r.state_machine == state_machine,
    {
        DeduplicatingCommandInterpreter { state_machine }
    }

    /// Applies one delivered command: handles its acknowledgement mode, then
    /// delegates to the wrapped interpreter unless the delivery was a
    /// duplicate.  The whole step is `dedup_step` of the wrapped
    /// interpreter.
    pub fn on_apply(
        &self,
        command: AckCommand,
        effects: &mut Effects,
        transaction: &mut PartitionTransaction,
    ) -> (r: Result<(Option<FullInvocationId>, SpanRelation), ApplyError>)
        requires
            old(transaction).wf(),
        ensures
            final(transaction).wf(),
            final(transaction)@ == dedup_step(
                &self.state_machine,
                command@,
                old(transaction)@,
            ).store,
            final(effects)@ == old(effects)@ + dedup_step(
                &self.state_machine,
                command@,
                old(transaction)@,
            ).effects,
            outcome_view(r) == dedup_step(&self.state_machine, command@, old(transaction)@).result,
    {
        let ghost cmd0 = command@;
        let ghost store0 = transaction@;
        let ghost effects0 = effects@;
        let (fsm_command, ack_mode) = command.into_inner();
        match ack_mode {
            AckMode::Ack(ack_target) => {
                effects.send_ack_response(ack_target.acknowledge());
                let r = self.state_machine.on_apply(fsm_command, effects, transaction);
                proof {
                    let step = dedup_step(&self.state_machine, cmd0, store0);
                    assert(effects@ =~= effects0 + step.effects);
                }
                r
            },
            AckMode::Dedup(deduplication_source) => {
                let source = deduplication_source.to_source();
                let seq_number = deduplication_source.seq_number();
                let ghost ds = cmd0.ack_mode->Dedup_0;
                if let Some(last_known_seq_number) = transaction.load_dedup_seq_number(&source) {
                    if seq_number <= last_known_seq_number {
                        effects.send_ack_response(
                            deduplication_source.duplicate(last_known_seq_number),
                        );
                        proof {
                            assert(is_duplicate(store0, ds));
                            let step = dedup_step(&self.state_machine, cmd0, store0);
                            assert(effects@ =~= effects0 + step.effects);
                        }
                        return Ok((None, SpanRelation::NoRelation));
                    }
                }
                proof {
                    assert(!is_duplicate(store0, ds));
                }
                transaction.store_dedup_seq_number(source, seq_number);
                effects.send_ack_response(deduplication_source.acknowledge());
                proof {
                    let raised = StoreModel {
                        state: store0.state,
                        dedup: store0.dedup.insert(ds.source(), ds.seq_number()),
                    };
                    assert(transaction@.state =~= raised.state);
                    assert(transaction@.dedup =~= raised.dedup);
                }
                let r = self.state_machine.on_apply(fsm_command, effects, transaction);
                proof {
                    let step = dedup_step(&self.state_machine, cmd0, store0);
                    assert(effects@ =~= effects0 + step.effects);
                }
                r
            },
            AckMode::NoAck => {
                let r = self.state_machine.on_apply(fsm_command, effects, transaction);
                proof {
                    let step = dedup_step(&self.state_machine, cmd0, store0);
                    assert(effects@ =~= effects0 + step.effects);
                }
                r
            },
        }
    }
}

/// Replaying commands one after another from a starting state: the state
/// they leave behind and the effects staged along the way, in order.
pub open spec fn replay<I: CommandInterpreter>(
    interpreter: &I,
    commands: Seq<AckCommandModel>,
    store: StoreModel,
) -> (StoreModel, Seq<EffectModel>)
    decreases commands.len(),
{
    if commands.len() == 0 {
        (store, Seq::<EffectModel>::empty())
    } else {
        let first = dedup_step(interpreter, commands[0], store);
        let rest = replay(interpreter, commands.drop_first(), first.store);
        (rest.0, first.effects + rest.1)
    }
}

/// The persisted state after the first `k` commands of a replay.
pub open spec fn replay_prefix_store<I: CommandInterpreter>(
    interpreter: &I,
    commands: Seq<AckCommandModel>,
    store: StoreModel,
    k: int,
) -> StoreModel {
    replay(interpreter, commands.take(k), store).0
}

/// Replay is deterministic: the same command sequence applied against two
/// independent copies of the same initial state yields the same final state
/// and the same effect sequence, in the same order.
pub proof fn lemma_replay_deterministic<I: CommandInterpreter>(
    interpreter: &I,
    commands: Seq<AckCommandModel>,
    first_copy: StoreModel,
    second_copy: StoreModel,
)
    requires
        first_copy == second_copy,
    ensures
        replay(interpreter, commands, first_copy) == replay(interpreter, commands, second_copy),
{
}

/// A dedup-guarded command whose sequence number is at or below the lane's
/// persisted one is never forwarded to the command interpreter: the state is
/// left unchanged, the one staged effect is a duplicate response carrying
/// the persisted sequence number, and the apply reports no invocation.
pub proof fn lemma_duplicate_not_forwarded<I: CommandInterpreter>(
    interpreter: &I,
    command: AckCommandModel,
    store: StoreModel,
)
    requires
        command.ack_mode is Dedup,
        is_duplicate(store, command.ack_mode->Dedup_0),
    ensures
        dedup_step(interpreter, command, store).store == store,
        dedup_step(interpreter, command, store).effects == seq![
            EffectModel::AckResponse(
                AckResponseModel::Duplicate {
                    source: command.ack_mode->Dedup_0.source(),
                    seq_number: command.ack_mode->Dedup_0.seq_number(),
                    last_known_seq_number: store.dedup[command.ack_mode->Dedup_0.source()],
                },
            ),
        ],
        dedup_step(interpreter, command, store).result == Ok::<
            (Option<FullInvocationIdModel>, SpanRelation),
            ApplyError,
        >((None, SpanRelation::NoRelation)),
{
}

/// The interpreter never writes the deduplication ledger; the ledger
/// namespace belongs to the deduplicating wrapper alone.
pub open spec fn preserves_ledger<I: CommandInterpreter>(interpreter: &I) -> bool {
    forall|command: CommandModel, store: StoreModel|
        (#[trigger] interpreter.step(command, store)).store.dedup == store.dedup
}

/// Every command of the sequence is dedup-guarded and names the same
/// producer lane.
pub open spec fn all_from_source(commands: Seq<AckCommandModel>, source: SourceModel) -> bool {
    forall|k: int|
        0 <= k < commands.len() ==> ((#[trigger] commands[k]).ack_mode matches AckModeModel::Dedup(
            ds,
        ) && ds.source() == source)
}

/// The sequence numbers of the commands strictly increase.
pub open spec fn strictly_increasing_seq_numbers(commands: Seq<AckCommandModel>) -> bool {
    forall|k1: int, k2: int|
        0 <= k1 < k2 < commands.len() ==> (#[trigger] commands[k1].ack_mode->Dedup_0.seq_number())
            < (#[trigger] commands[k2].ack_mode->Dedup_0.seq_number())
}

/// The lane's ledger entry, if any, sits strictly below `n`.
pub open spec fn ledger_below(store: StoreModel, source: SourceModel, n: u64) -> bool {
    store.dedup.contains_key(source) ==> store.dedup[source] < n
}

/// Replaying a prefix of one command, then the rest, is replaying the whole.
proof fn lemma_replay_take_shift<I: CommandInterpreter>(
    interpreter: &I,
    commands: Seq<AckCommandModel>,
    store: StoreModel,
    k: int,
)
    requires
        1 <= k <= commands.len(),
    ensures
        replay(interpreter, commands.take(k), store).0 == replay(
            interpreter,
            commands.drop_first().take(k - 1),
            dedup_step(interpreter, commands[0], store).store,
        ).0,
{
    let t = commands.take(k);
    assert(t[0] == commands[0]);
    assert(t.drop_first() =~= commands.drop_first().take(k - 1));
}

/// Commands of one lane with strictly increasing sequence numbers, starting
/// above the lane's ledger entry, are each applied exactly once: no step
/// sees a duplicate, each step's first staged effect is the acknowledgement
/// of its delivery, and the ledger ends at the last sequence number.
pub proof fn lemma_fresh_increasing_all_applied<I: CommandInterpreter>(
    interpreter: &I,
    commands: Seq<AckCommandModel>,
    store: StoreModel,
    source: SourceModel,
)
    requires
        preserves_ledger(interpreter),
        all_from_source(commands, source),
        strictly_increasing_seq_numbers(commands),
        commands.len() > 0 ==> ledger_below(
            store,
            source,
            commands[0].ack_mode->Dedup_0.seq_number(),
        ),
    ensures
        forall|k: int|
            0 <= k < commands.len() ==> !is_duplicate(
                #[trigger] replay_prefix_store(interpreter, commands, store, k),
                commands[k].ack_mode->Dedup_0,
            ),
        forall|k: int|
            0 <= k < commands.len() ==> (#[trigger] dedup_step(
                interpreter,
                commands[k],
                replay_prefix_store(interpreter, commands, store, k),
            ).effects)[0] == EffectModel::AckResponse(
                AckResponseModel::Acknowledge {
                    source,
                    seq_number: commands[k].ack_mode->Dedup_0.seq_number(),
                },
            ),
        replay(interpreter, commands, store).0.dedup == if commands.len() == 0 {
            store.dedup
        } else {
            store.dedup.insert(source, commands.last().ack_mode->Dedup_0.seq_number())
        },
    decreases commands.len(),
{
    if commands.len() > 0 {
        let c0 = commands[0];
        let ds0 = c0.ack_mode->Dedup_0;
        let n0 = ds0.seq_number();
        assert(!is_duplicate(store, ds0));
        let step0 = dedup_step(interpreter, c0, store);
        assert(step0.store.dedup == store.dedup.insert(source, n0));
        let rest = commands.drop_first();
        assert forall|k: int| 0 <= k < rest.len() implies ((#[trigger] rest[k]).ack_mode matches (
        AckModeModel::Dedup(ds)) && ds.source() == source) by {
            assert(rest[k] == commands[k + 1]);
        }
        assert forall|k1: int, k2: int| 0 <= k1 < k2 < rest.len() implies (
        #[trigger] rest[k1].ack_mode->Dedup_0.seq_number())
            < (#[trigger] rest[k2].ack_mode->Dedup_0.seq_number()) by {
            assert(rest[k1] == commands[k1 + 1] && rest[k2] == commands[k2 + 1]);
        }
        if rest.len() > 0 {
            assert(rest[0] == commands[1]);
            assert(n0 < rest[0].ack_mode->Dedup_0.seq_number());
            assert(ledger_below(step0.store, source, rest[0].ack_mode->Dedup_0.seq_number()));
        }
        lemma_fresh_increasing_all_applied(interpreter, rest, step0.store, source);
        assert forall|k: int| 1 <= k < commands.len() implies replay_prefix_store(
            interpreter,
            commands,
            store,
            k,
        ) == replay_prefix_store(interpreter, rest, step0.store, k - 1) by {
            lemma_replay_take_shift(interpreter, commands, store, k);
        }
        assert(replay_prefix_store(interpreter, commands, store, 0) == store) by {
            assert(commands.take(0) =~= Seq::<AckCommandModel>::empty());
        }
        assert forall|k: int| 0 <= k < commands.len() implies !is_duplicate(
            #[trigger] replay_prefix_store(interpreter, commands, store, k),
            commands[k].ack_mode->Dedup_0,
        ) by {
            if k > 0 {
                assert(rest[k - 1] == commands[k]);
            }
        }
        assert forall|k: int| 0 <= k < commands.len() implies (#[trigger] dedup_step(
            interpreter,
            commands[k],
            replay_prefix_store(interpreter, commands, store, k),
        ).effects)[0] == EffectModel::AckResponse(
            AckResponseModel::Acknowledge {
                source,
                seq_number: commands[k].ack_mode->Dedup_0.seq_number(),
            },
        ) by {
            if k > 0 {
                assert(rest[k - 1] == commands[k]);
            }
        }
        assert(replay(interpreter, commands, store).0 == replay(interpreter, rest, step0.store).0);
        if rest.len() == 0 {
            assert(commands.last() == c0);
        } else {
            assert(rest.last() == commands.last());
            assert(store.dedup.insert(source, n0).insert(
                source,
                commands.last().ack_mode->Dedup_0.seq_number(),
            ) =~= store.dedup.insert(source, commands.last().ack_mode->Dedup_0.seq_number()));
        }
    }
}

} // verus!
