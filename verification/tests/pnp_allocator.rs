use cyphal_service::pnp::allocator::{
    AllocationDataV1, AllocationDataV2, NodeId, GET_INFO_RETRY_COOLDOWN,
};
use cyphal_service::pnp::{AllocationDb, PnpAllocator};

fn temp_allocator(local_id: u16, max_id: u16) -> PnpAllocator {
    let db = AllocationDb::open(":memory:").expect("open temp db");
    PnpAllocator::new(db, local_id, max_id)
}

fn make_v2_request(uid: [u8; 16]) -> AllocationDataV2 {
    AllocationDataV2 {
        node_id: NodeId { value: 0 },
        unique_id: uid,
    }
}

fn make_v1_request(hash: u64) -> AllocationDataV1 {
    AllocationDataV1 {
        unique_id_hash: hash,
        allocated_node_id: Vec::new(),
    }
}

#[test]
fn test_v2_first_allocation() {
    let mut alloc = temp_allocator(100, 127);
    let uid: [u8; 16] = [0xAA; 16];
    let resp = alloc.on_allocation_v2(&make_v2_request(uid), None).unwrap();
    assert_eq!(resp.unique_id, uid);
    let id = resp.node_id.value;
    assert!((1..=127).contains(&id));
    assert_ne!(id, 100);
}

#[test]
fn test_v2_idempotent_same_uid() {
    let mut alloc = temp_allocator(100, 127);
    let uid: [u8; 16] = [0xBB; 16];
    let resp1 = alloc.on_allocation_v2(&make_v2_request(uid), None).unwrap();
    let resp2 = alloc.on_allocation_v2(&make_v2_request(uid), None).unwrap();
    let id1 = resp1.node_id.value;
    let id2 = resp2.node_id.value;
    assert_eq!(id1, id2);
}

#[test]
fn test_v2_different_uids_get_different_ids() {
    let mut alloc = temp_allocator(100, 127);
    let uid1: [u8; 16] = [0x01; 16];
    let uid2: [u8; 16] = [0x02; 16];
    let resp1 = alloc
        .on_allocation_v2(&make_v2_request(uid1), None)
        .unwrap();
    let resp2 = alloc
        .on_allocation_v2(&make_v2_request(uid2), None)
        .unwrap();
    let id1 = resp1.node_id.value;
    let id2 = resp2.node_id.value;
    assert_ne!(id1, id2);
}

#[test]
fn allocator_test_v2_ignores_non_anonymous_source() {
    let mut alloc = temp_allocator(100, 127);
    let uid: [u8; 16] = [0xCC; 16];
    let resp = alloc.on_allocation_v2(&make_v2_request(uid), Some(42));
    assert!(resp.is_none());
}

#[test]
fn test_v2_local_id_not_assigned() {
    let mut alloc = temp_allocator(1, 5);
    let uid: [u8; 16] = [0x11; 16];
    let resp = alloc.on_allocation_v2(&make_v2_request(uid), None).unwrap();
    let id = resp.node_id.value;
    assert_ne!(id, 1);
}

#[test]
fn allocator_test_v2_table_full_returns_none() {
    let mut alloc = temp_allocator(1, 2);
    let uid1: [u8; 16] = [0x01; 16];
    let uid2: [u8; 16] = [0x02; 16];
    let resp1 = alloc.on_allocation_v2(&make_v2_request(uid1), None);
    assert!(resp1.is_some());
    let resp2 = alloc.on_allocation_v2(&make_v2_request(uid2), None);
    assert!(resp2.is_none());
}

#[test]
fn test_v1_first_allocation() {
    let mut alloc = temp_allocator(100, 127);
    let hash: u64 = 0xABCDEF123456;
    let resp = alloc
        .on_allocation_v1(&make_v1_request(hash), None)
        .unwrap();
    assert_eq!(resp.unique_id_hash, hash);
    assert_eq!(resp.allocated_node_id.len(), 1);
    let id = resp.allocated_node_id[0].value;
    assert!((1..=127).contains(&id));
    assert_ne!(id, 100);
}

#[test]
fn test_v1_idempotent_same_hash() {
    let mut alloc = temp_allocator(100, 127);
    let hash: u64 = 0x1234567890AB;
    let resp1 = alloc
        .on_allocation_v1(&make_v1_request(hash), None)
        .unwrap();
    let resp2 = alloc
        .on_allocation_v1(&make_v1_request(hash), None)
        .unwrap();
    let id1 = resp1.allocated_node_id[0].value;
    let id2 = resp2.allocated_node_id[0].value;
    assert_eq!(id1, id2);
}

#[test]
fn test_v1_ignores_non_anonymous_source() {
    let mut alloc = temp_allocator(100, 127);
    let hash: u64 = 0xDEADBEEFCAFE;
    let resp = alloc.on_allocation_v1(&make_v1_request(hash), Some(5));
    assert!(resp.is_none());
}

#[test]
fn allocator_test_v1_ignores_response_messages() {
    let mut alloc = temp_allocator(100, 127);
    let mut msg = make_v1_request(0x123456789ABC);
    msg.allocated_node_id.push(NodeId { value: 7 });
    let resp = alloc.on_allocation_v1(&msg, None);
    assert!(resp.is_none());
}

#[test]
fn test_heartbeat_reserves_node_id() {
    let mut alloc = temp_allocator(100, 3);
    alloc.on_heartbeat(1);
    alloc.on_heartbeat(2);
    let uid: [u8; 16] = [0xFF; 16];
    let resp = alloc.on_allocation_v2(&make_v2_request(uid), None).unwrap();
    let id = resp.node_id.value;
    assert_eq!(id, 3);
}

#[test]
fn test_list_allocations() {
    let mut alloc = temp_allocator(100, 127);
    let uid: [u8; 16] = [0x42; 16];
    alloc.on_allocation_v2(&make_v2_request(uid), None);
    let entries = alloc.list_allocations();
    assert!(entries.len() >= 2);
}

#[test]
fn test_heartbeat_enqueues_get_info_for_static_node() {
    let mut alloc = temp_allocator(100, 127);
    alloc.on_heartbeat(5);
    assert_eq!(
        alloc.pop_get_info_request(),
        Some(5),
        "static node should be enqueued for GetInfo"
    );
    assert!(
        alloc.pop_get_info_request().is_none(),
        "queue should be empty after pop"
    );
}

#[test]
fn test_heartbeat_enqueues_get_info_for_v1_node() {
    let mut alloc = temp_allocator(100, 127);
    alloc
        .on_allocation_v1(&make_v1_request(0xDEAD_BEEF_CAFE), None)
        .unwrap();
    let entries = alloc.list_allocations();
    let v1_entry = entries
        .iter()
        .find(|e| e.pseudo_unique_id.is_some())
        .unwrap();
    let v1_node_id = v1_entry.node_id;

    alloc.on_heartbeat(v1_node_id);
    assert_eq!(
        alloc.pop_get_info_request(),
        Some(v1_node_id),
        "v1 node should be enqueued for GetInfo after heartbeat"
    );
}

#[test]
fn test_heartbeat_cooldown_prevents_duplicate_enqueue() {
    let mut alloc = temp_allocator(100, 127);
    alloc.on_heartbeat(5);
    alloc.pop_get_info_request();

    alloc.on_heartbeat(5);
    assert!(
        alloc.pop_get_info_request().is_none(),
        "within cooldown, node must not be re-enqueued"
    );
}

#[test]
fn test_on_get_info_result_success_stops_reenqueue() {
    let mut alloc = temp_allocator(100, 127);
    alloc.on_heartbeat(5);
    alloc.pop_get_info_request();

    let uid: [u8; 16] = [
        0x01, 0x02, 0x03, 0x04, 0x05, 0x06, 0x07, 0x08, 0x09, 0x0a, 0x0b, 0x0c, 0x0d, 0x0e,
        0x0f, 0x10,
    ];
    alloc.on_get_info_result(5, Some(uid));

    let entries = alloc.list_allocations();
    let entry = entries.iter().find(|e| e.node_id == 5).unwrap();
    assert!(
        !entry.needs_get_info(),
        "node should no longer need GetInfo"
    );

    alloc.on_heartbeat(5);
    assert!(
        alloc.pop_get_info_request().is_none(),
        "node with real unique ID must not be re-enqueued"
    );
}

#[test]
fn test_on_get_info_result_timeout_allows_retry() {
    let mut alloc = temp_allocator(100, 127);
    alloc.on_heartbeat(5);
    alloc.pop_get_info_request();

    alloc.on_get_info_result(5, None);

    alloc.on_heartbeat(5);
    assert_eq!(
        alloc.pop_get_info_request(),
        Some(5),
        "after timeout, next heartbeat must re-enqueue"
    );
}

#[test]
fn test_v2_node_not_enqueued_for_get_info() {
    let mut alloc = temp_allocator(100, 127);
    let uid: [u8; 16] = [0xAA; 16];
    let resp = alloc.on_allocation_v2(&make_v2_request(uid), None).unwrap();
    let assigned_id = resp.node_id.value;

    alloc.on_heartbeat(assigned_id);
    assert!(
        alloc.pop_get_info_request().is_none(),
        "v2 node already has a real unique ID and must not be enqueued"
    );
}

#[test]
fn test_lowest_free_id_is_assigned() {
    let mut alloc = temp_allocator(1, 127);
    alloc.on_heartbeat(2);
    let resp = alloc.on_allocation_v2(&make_v2_request([1; 16]), None).unwrap();
    assert_eq!(resp.node_id.value, 3);
    let resp = alloc.on_allocation_v1(&make_v1_request(9), None).unwrap();
    assert_eq!(resp.allocated_node_id[0].value, 4);
}

#[test]
fn test_allocations_survive_other_requests() {
    let mut alloc = temp_allocator(100, 127);
    let first = alloc.on_allocation_v2(&make_v2_request([1; 16]), None).unwrap();
    alloc.on_allocation_v2(&make_v2_request([2; 16]), None).unwrap();
    alloc.on_allocation_v1(&make_v1_request(7), None).unwrap();
    alloc.on_heartbeat(50);
    let again = alloc.on_allocation_v2(&make_v2_request([1; 16]), None).unwrap();
    assert_eq!(first.node_id.value, again.node_id.value);
    assert_eq!(alloc.list_allocations().len(), 5);
}

#[test]
fn test_cooldown_boundary() {
    let mut alloc = temp_allocator(100, 127);
    alloc.on_heartbeat_at(5, 1_000);
    assert_eq!(alloc.pop_get_info_request(), Some(5));
    alloc.on_heartbeat_at(5, 999 + GET_INFO_RETRY_COOLDOWN);
    assert_eq!(alloc.pop_get_info_request(), None);
    alloc.on_heartbeat_at(5, 0);
    assert_eq!(alloc.pop_get_info_request(), None);
    alloc.on_heartbeat_at(5, 1_000 + GET_INFO_RETRY_COOLDOWN);
    assert_eq!(alloc.pop_get_info_request(), Some(5));
}

#[test]
fn test_requests_are_queued_in_order() {
    let mut alloc = temp_allocator(100, 127);
    alloc.on_heartbeat_at(9, 0);
    alloc.on_heartbeat_at(3, 1);
    alloc.on_heartbeat_at(100, 2);
    assert_eq!(alloc.pop_get_info_request(), Some(9));
    assert_eq!(alloc.pop_get_info_request(), Some(3));
    assert_eq!(alloc.pop_get_info_request(), Some(100));
    assert_eq!(alloc.pop_get_info_request(), None);
}

#[test]
fn test_v1_full_table_returns_none() {
    let mut alloc = temp_allocator(1, 2);
    assert!(alloc.on_allocation_v1(&make_v1_request(1), None).is_some());
    assert!(alloc.on_allocation_v1(&make_v1_request(2), None).is_none());
    assert!(alloc.on_allocation_v1(&make_v1_request(1), None).is_some());
}

#[test]
fn test_v1_different_hashes_get_different_ids() {
    let mut alloc = temp_allocator(100, 127);
    let a = alloc.on_allocation_v1(&make_v1_request(1), None).unwrap();
    let b = alloc.on_allocation_v1(&make_v1_request(2), None).unwrap();
    assert_ne!(a.allocated_node_id[0].value, b.allocated_node_id[0].value);
}

#[test]
fn test_v2_zero_unique_id_is_not_answered() {
    let mut alloc = temp_allocator(100, 127);
    assert!(alloc.on_allocation_v2(&make_v2_request([0; 16]), None).is_none());
    alloc.on_heartbeat(42);
    assert!(alloc.on_allocation_v2(&make_v2_request([0; 16]), None).is_none());
    assert_eq!(alloc.list_allocations().len(), 2);
}

#[test]
fn test_local_id_is_not_assigned_to_its_former_holder() {
    let mut db = AllocationDb::open(":memory:").unwrap();
    db.insert_v2(100, &[0xAB; 16]).unwrap();
    db.insert_v1(101, 7).unwrap();
    let mut alloc = PnpAllocator::new(db, 100, 127);
    let first = alloc.on_allocation_v2(&make_v2_request([0xAB; 16]), None);
    assert_eq!(first.unwrap().node_id.value, 1);
    let again = alloc.on_allocation_v2(&make_v2_request([0xAB; 16]), None);
    assert_eq!(again.unwrap().node_id.value, 1);

    let mut db = AllocationDb::open(":memory:").unwrap();
    db.insert_v1(101, 7).unwrap();
    let mut alloc = PnpAllocator::new(db, 101, 127);
    for _ in 0..2 {
        let resp = alloc.on_allocation_v1(&make_v1_request(7), None).unwrap();
        assert_eq!(resp.allocated_node_id[0].value, 1);
    }
}

#[test]
fn test_same_id_after_other_requests_with_no_id_left() {
    let mut alloc = temp_allocator(5, 5);
    let uid: [u8; 16] = [0x11; 16];
    let first = alloc.on_allocation_v2(&make_v2_request(uid), None).unwrap();
    alloc.on_allocation_v1(&make_v1_request(3), None).unwrap();
    alloc.on_heartbeat(4);
    alloc.on_allocation_v2(&make_v2_request([0x22; 16]), None).unwrap();
    assert!(alloc.on_allocation_v2(&make_v2_request([0x33; 16]), None).is_none());
    let rows = alloc.list_allocations().len();
    let again = alloc.on_allocation_v2(&make_v2_request(uid), None).unwrap();
    assert_eq!(again.node_id.value, first.node_id.value);
    assert_eq!(again.unique_id, uid);
    assert_eq!(alloc.list_allocations().len(), rows);
    let resp = alloc.on_allocation_v1(&make_v1_request(3), None).unwrap();
    assert_eq!(resp.allocated_node_id[0].value, 2);
}

#[test]
fn test_same_id_after_a_v1_request_with_the_padded_hash() {
    let mut uid: [u8; 16] = [0; 16];
    uid[10..].copy_from_slice(&[0xAA, 0xBB, 0xCC, 0xDD, 0xEE, 0xFF]);
    let mut db = AllocationDb::open(":memory:").unwrap();
    db.insert_v2(50, &uid).unwrap();
    let mut alloc = PnpAllocator::new(db, 100, 127);
    let first = alloc.on_allocation_v2(&make_v2_request(uid), None).unwrap();
    assert_eq!(first.node_id.value, 50);
    let v1 = alloc
        .on_allocation_v1(&make_v1_request(0xAABB_CCDD_EEFF), None)
        .unwrap();
    assert_eq!(v1.allocated_node_id[0].value, 1);
    let again = alloc.on_allocation_v2(&make_v2_request(uid), None).unwrap();
    assert_eq!(again.node_id.value, 50);
    let v1 = alloc
        .on_allocation_v1(&make_v1_request(0xAABB_CCDD_EEFF), None)
        .unwrap();
    assert_eq!(v1.allocated_node_id[0].value, 1);
}

#[test]
fn test_same_id_after_another_node_reports_the_unique_id() {
    let uid: [u8; 16] = [0x5A; 16];
    let mut db = AllocationDb::open(":memory:").unwrap();
    db.insert_v2(50, &uid).unwrap();
    let mut alloc = PnpAllocator::new(db, 100, 127);
    alloc.on_heartbeat(7);
    alloc.on_get_info_result(7, Some(uid));
    let resp = alloc.on_allocation_v2(&make_v2_request(uid), None).unwrap();
    assert_eq!(resp.node_id.value, 50);
}
