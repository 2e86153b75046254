use partition_core::commands::{
    AckCommand, AckMode, AckResponse, AckTarget, Command, DeduplicationSource, Effect, Effects,
    SequenceNumberSource,
};
use partition_core::identifiers::{FullInvocationId, InvocationUuid};
use partition_core::interpreter::{BaseCommandInterpreter, DeduplicatingCommandInterpreter};
use partition_core::storage::{PartitionStore, PartitionTransaction};

fn command(tag: u8) -> Command {
    Command {
        fid: FullInvocationId::new("svc".to_owned(), b"key".to_vec(), InvocationUuid(tag as u128)),
        state_key: vec![tag],
        state_value: vec![tag, tag],
    }
}

fn ingress_delivery(tag: u8, seq_number: u64) -> AckCommand {
    AckCommand::new(
        command(tag),
        AckMode::Dedup(DeduplicationSource::Ingress {
            source_id: "client-A".to_owned(),
            seq_number,
        }),
    )
}

fn apply_all(
    deliveries: Vec<AckCommand>,
    txn: &mut PartitionTransaction,
) -> Vec<Effects> {
    let interpreter = DeduplicatingCommandInterpreter::new(BaseCommandInterpreter::new());
    let mut per_apply = Vec::new();
    for delivery in deliveries {
        let mut effects = Effects::new();
        interpreter
            .on_apply(delivery, &mut effects, txn)
            .expect("apply never fails on the in-memory store");
        per_apply.push(effects);
    }
    per_apply
}

fn ack(seq_number: u64) -> Effect {
    Effect::AckResponse(AckResponse::Acknowledge {
        source: SequenceNumberSource::Ingress("client-A".to_owned()),
        seq_number,
    })
}

fn duplicate(seq_number: u64, last_known_seq_number: u64) -> Effect {
    Effect::AckResponse(AckResponse::Duplicate {
        source: SequenceNumberSource::Ingress("client-A".to_owned()),
        seq_number,
        last_known_seq_number,
    })
}

#[test]
fn dedup_scenario_applies_each_sequence_number_once() {
    // deliveries 1, 2, 2, 1, 3: the second 2 and the trailing 1 are
    // duplicates; exactly 1, 2 and 3 are applied, and the ledger ends at 3
    let deliveries = vec![
        ingress_delivery(1, 1),
        ingress_delivery(2, 2),
        ingress_delivery(22, 2),
        ingress_delivery(11, 1),
        ingress_delivery(3, 3),
    ];
    let mut txn = PartitionStore::new().begin_transaction();
    let per_apply = apply_all(deliveries, &mut txn);

    assert_eq!(per_apply[0].list[0], ack(1));
    assert_eq!(per_apply[1].list[0], ack(2));
    assert_eq!(per_apply[2].list, vec![duplicate(2, 2)]);
    assert_eq!(per_apply[3].list, vec![duplicate(1, 2)]);
    assert_eq!(per_apply[4].list[0], ack(3));

    let applied: usize = per_apply
        .iter()
        .flat_map(|e| e.list.iter())
        .filter(|e| matches!(e, Effect::Invoked(_)))
        .count();
    assert_eq!(applied, 3);

    let source = SequenceNumberSource::Ingress("client-A".to_owned());
    assert_eq!(txn.load_dedup_seq_number(&source), Some(3));

    // the duplicates were never forwarded: their state writes are absent
    let sid = command(1).fid.service_id;
    assert_eq!(txn.get_user_state(&sid, &[1]), Some(vec![1, 1]));
    assert_eq!(txn.get_user_state(&sid, &[2]), Some(vec![2, 2]));
    assert_eq!(txn.get_user_state(&sid, &[3]), Some(vec![3, 3]));
    assert_eq!(txn.get_user_state(&sid, &[22]), None);
    assert_eq!(txn.get_user_state(&sid, &[11]), None);
}

#[test]
fn strictly_increasing_deliveries_are_all_acknowledged() {
    let deliveries = vec![
        ingress_delivery(1, 10),
        ingress_delivery(2, 11),
        ingress_delivery(3, 40),
    ];
    let mut txn = PartitionStore::new().begin_transaction();
    let per_apply = apply_all(deliveries, &mut txn);
    assert_eq!(per_apply[0].list[0], ack(10));
    assert_eq!(per_apply[1].list[0], ack(11));
    assert_eq!(per_apply[2].list[0], ack(40));
    for effects in &per_apply {
        assert_eq!(effects.list.len(), 2);
        assert!(matches!(effects.list[1], Effect::Invoked(_)));
    }
    let source = SequenceNumberSource::Ingress("client-A".to_owned());
    assert_eq!(txn.load_dedup_seq_number(&source), Some(40));
}

#[test]
fn equal_sequence_number_is_treated_as_duplicate() {
    let deliveries = vec![ingress_delivery(1, 7), ingress_delivery(2, 7)];
    let mut txn = PartitionStore::new().begin_transaction();
    let per_apply = apply_all(deliveries, &mut txn);
    assert_eq!(per_apply[1].list, vec![duplicate(7, 7)]);
    let sid = command(1).fid.service_id;
    assert_eq!(txn.get_user_state(&sid, &[2]), None);
}

#[test]
fn shuffle_descriptor_maps_to_partition_lane() {
    let delivery = AckCommand::new(
        command(1),
        AckMode::Dedup(DeduplicationSource::Shuffle {
            producing_partition_id: 9,
            seq_number: 5,
        }),
    );
    let mut txn = PartitionStore::new().begin_transaction();
    apply_all(vec![delivery], &mut txn);
    assert_eq!(
        txn.load_dedup_seq_number(&SequenceNumberSource::Partition(9)),
        Some(5)
    );
    assert_eq!(
        txn.load_dedup_seq_number(&SequenceNumberSource::Partition(8)),
        None
    );
}

#[test]
fn ack_mode_skips_the_ledger() {
    let delivery = AckCommand::new(
        command(1),
        AckMode::Ack(AckTarget {
            source: SequenceNumberSource::Partition(4),
            seq_number: 17,
        }),
    );
    let mut txn = PartitionStore::new().begin_transaction();
    let per_apply = apply_all(vec![delivery], &mut txn);
    assert_eq!(
        per_apply[0].list[0],
        Effect::AckResponse(AckResponse::Acknowledge {
            source: SequenceNumberSource::Partition(4),
            seq_number: 17,
        })
    );
    // the ack path never consults or updates the ledger
    assert_eq!(
        txn.load_dedup_seq_number(&SequenceNumberSource::Partition(4)),
        None
    );
}

#[test]
fn no_ack_mode_stages_no_response() {
    let delivery = AckCommand::new(command(1), AckMode::NoAck);
    let mut txn = PartitionStore::new().begin_transaction();
    let per_apply = apply_all(vec![delivery], &mut txn);
    assert_eq!(per_apply[0].list.len(), 1);
    assert!(matches!(per_apply[0].list[0], Effect::Invoked(_)));
}

#[test]
fn replay_is_deterministic() {
    let deliveries = || {
        vec![
            ingress_delivery(1, 1),
            ingress_delivery(2, 2),
            ingress_delivery(22, 2),
            ingress_delivery(3, 3),
        ]
    };
    let mut txn_a = PartitionStore::new().begin_transaction();
    let mut txn_b = PartitionStore::new().begin_transaction();
    let effects_a = apply_all(deliveries(), &mut txn_a);
    let effects_b = apply_all(deliveries(), &mut txn_b);
    assert_eq!(effects_a, effects_b);
    let sid = command(1).fid.service_id;
    for tag in [1u8, 2, 3, 22] {
        assert_eq!(
            txn_a.get_user_state(&sid, &[tag]),
            txn_b.get_user_state(&sid, &[tag])
        );
    }
    let source = SequenceNumberSource::Ingress("client-A".to_owned());
    assert_eq!(
        txn_a.load_dedup_seq_number(&source),
        txn_b.load_dedup_seq_number(&source)
    );
}
