use partition_core::identifiers::ServiceId;
use partition_core::state_keys::{user_state_key_from_slice, write_state_entry_key};
use partition_core::storage::{PartitionStore, PartitionTransaction};

fn state_entry_key(service_id: &ServiceId, state_key: &[u8]) -> Vec<u8> {
    write_state_entry_key(service_id, state_key).serialize()
}

fn with_partition_key(partition_key: u64, name: &str, key: &[u8]) -> ServiceId {
    ServiceId::with_partition_key(partition_key, name.to_owned(), key.to_vec())
}

#[test]
fn keys_sort_services() {
    assert!(
        state_entry_key(&with_partition_key(1337, "svc-1", b""), b"")
            < state_entry_key(&with_partition_key(1337, "svc-2", b""), b"")
    );
}

#[test]
fn keys_sort_same_services_but_different_keys() {
    assert!(
        state_entry_key(&with_partition_key(1337, "svc-1", b"a"), b"")
            < state_entry_key(&with_partition_key(1337, "svc-1", b"b"), b"")
    );
}

#[test]
fn keys_sort_same_services_and_keys_but_different_states() {
    let a = state_entry_key(&with_partition_key(1337, "svc-1", b"key-a"), b"a");
    let b = state_entry_key(&with_partition_key(1337, "svc-1", b"key-a"), b"b");
    assert!(a < b);
}

#[test]
fn user_state_key_can_be_extracted() {
    let a = state_entry_key(&with_partition_key(1337, "svc-1", b"key-a"), b"seen_count");

    assert_eq!(
        user_state_key_from_slice(&a).unwrap(),
        b"seen_count".to_vec()
    );
}

#[test]
fn junk_state_key_bytes_are_refused() {
    assert!(user_state_key_from_slice(b"short").is_err());
    let mut bytes = state_entry_key(&with_partition_key(1, "svc", b"k"), b"state");
    bytes.push(0);
    assert!(user_state_key_from_slice(&bytes).is_err());
}

#[test]
fn user_state_round_trips_through_transaction() {
    let sid = ServiceId::new("svc-1".to_owned(), b"key-a".to_vec());
    let mut txn: PartitionTransaction = PartitionStore::new().begin_transaction();
    assert_eq!(txn.get_user_state(&sid, b"seen_count"), None);
    txn.put_user_state(&sid, b"seen_count", b"41");
    txn.put_user_state(&sid, b"seen_count", b"42");
    assert_eq!(txn.get_user_state(&sid, b"seen_count"), Some(b"42".to_vec()));
    txn.delete_user_state(&sid, b"seen_count");
    assert_eq!(txn.get_user_state(&sid, b"seen_count"), None);
}

#[test]
fn writes_survive_commit() {
    let sid = ServiceId::new("svc-1".to_owned(), b"key-a".to_vec());
    let mut txn = PartitionStore::new().begin_transaction();
    txn.put_user_state(&sid, b"greeting", b"hello");
    let store = txn.commit();
    let txn2 = store.begin_transaction();
    assert_eq!(txn2.get_user_state(&sid, b"greeting"), Some(b"hello".to_vec()));
}

#[test]
fn all_user_states_of_one_instance() {
    let sid_a = ServiceId::new("svc".to_owned(), b"a".to_vec());
    let sid_b = ServiceId::new("svc".to_owned(), b"b".to_vec());
    let mut txn = PartitionStore::new().begin_transaction();
    txn.put_user_state(&sid_a, b"k1", b"v1");
    txn.put_user_state(&sid_a, b"k2", b"v2");
    txn.put_user_state(&sid_b, b"other", b"x");
    let states = txn.get_all_user_states(&sid_a).unwrap();
    assert_eq!(states.len(), 2);
    assert!(states.contains(&(b"k1".to_vec(), b"v1".to_vec())));
    assert!(states.contains(&(b"k2".to_vec(), b"v2".to_vec())));
}

#[test]
fn user_states_arrive_in_key_order() {
    let sid = ServiceId::new("svc".to_owned(), b"a".to_vec());
    let mut txn = PartitionStore::new().begin_transaction();
    txn.put_user_state(&sid, b"kb", b"2");
    txn.put_user_state(&sid, b"ka", b"1");
    txn.put_user_state(&sid, b"kc", b"3");
    let states = txn.get_all_user_states(&sid).unwrap();
    assert_eq!(
        states,
        vec![
            (b"ka".to_vec(), b"1".to_vec()),
            (b"kb".to_vec(), b"2".to_vec()),
            (b"kc".to_vec(), b"3".to_vec()),
        ]
    );
}

#[test]
fn all_states_rows_arrive_in_key_order() {
    let sid = ServiceId::new("svc".to_owned(), b"key".to_vec());
    let mut txn = PartitionStore::new().begin_transaction();
    txn.put_user_state(&sid, b"k2", b"b");
    txn.put_user_state(&sid, b"k1", b"a");
    let store = txn.commit();
    let rows = store.all_states(0, u64::MAX).unwrap();
    assert_eq!(rows.len(), 2);
    let serialized: Vec<Vec<u8>> = rows
        .iter()
        .map(|row| {
            let sid_back = ServiceId::with_partition_key(
                row.partition_key,
                String::from_utf8(row.service.clone()).unwrap(),
                row.service_key.clone(),
            );
            write_state_entry_key(&sid_back, &row.state_key).serialize()
        })
        .collect();
    assert!(serialized[0] < serialized[1]);
    assert_eq!(rows[0].state_key, b"k1".to_vec());
    assert_eq!(rows[1].state_key, b"k2".to_vec());
}

#[test]
fn scan_prefix_returns_sorted_matches() {
    let mut txn = PartitionStore::new().begin_transaction();
    txn.put_kv(b"ab".to_vec(), b"2".to_vec());
    txn.put_kv(b"aa".to_vec(), b"1".to_vec());
    txn.put_kv(b"b".to_vec(), b"3".to_vec());
    let hits = txn.scan_prefix(&b"a".to_vec());
    assert_eq!(
        hits,
        vec![
            (b"aa".to_vec(), b"1".to_vec()),
            (b"ab".to_vec(), b"2".to_vec())
        ]
    );
}

#[test]
fn all_states_reports_rows_in_partition_range() {
    let sid = ServiceId::new("svc-1".to_owned(), b"key-a".to_vec());
    let pk = sid.partition_key;
    let mut txn = PartitionStore::new().begin_transaction();
    txn.put_user_state(&sid, b"seen_count", b"7");
    let store = txn.commit();
    let rows = store.all_states(pk, pk).unwrap();
    assert_eq!(rows.len(), 1);
    assert_eq!(rows[0].partition_key, pk);
    assert_eq!(rows[0].service, b"svc-1".to_vec());
    assert_eq!(rows[0].service_key, b"key-a".to_vec());
    assert_eq!(rows[0].state_key, b"seen_count".to_vec());
    assert_eq!(rows[0].state_value, b"7".to_vec());
    if pk > 0 {
        assert_eq!(store.all_states(0, pk - 1).unwrap().len(), 0);
    }
}

#[test]
fn point_kv_operations_behave() {
    let mut txn = PartitionStore::new().begin_transaction();
    txn.put_kv(b"b".to_vec(), b"2".to_vec());
    txn.put_kv(b"a".to_vec(), b"1".to_vec());
    assert_eq!(txn.get_kv(&b"a".to_vec()), Some(b"1".to_vec()));
    assert_eq!(txn.get_kv(&b"b".to_vec()), Some(b"2".to_vec()));
    assert_eq!(txn.get_kv(&b"c".to_vec()), None);
    txn.delete_kv(&b"a".to_vec());
    assert_eq!(txn.get_kv(&b"a".to_vec()), None);
    txn.delete_kv(&b"missing".to_vec());
    assert_eq!(txn.get_kv(&b"b".to_vec()), Some(b"2".to_vec()));
}
