use cyphal_service::pnp::db::{bytes_to_hex, hash_to_hex, is_zero_id};
use cyphal_service::pnp::AllocationDb;

fn temp_db() -> AllocationDb {
    AllocationDb::open(":memory:").expect("open temp db")
}

#[test]
fn test_open_creates_table() {
    let mut db = temp_db();
    let entries = db.list_all();
    assert!(entries.is_empty());
}

#[test]
fn test_insert_and_find_v2() {
    let mut db = temp_db();
    let uid: [u8; 16] = [1, 2, 3, 4, 5, 6, 7, 8, 9, 10, 11, 12, 13, 14, 15, 16];
    db.insert_v2(42, &uid).unwrap();
    assert_eq!(db.find_by_unique_id(&uid), Some(42));
    let uid2: [u8; 16] = [0; 16];
    assert_eq!(db.find_by_unique_id(&uid2), None);
}

#[test]
fn test_insert_and_find_v1() {
    let mut db = temp_db();
    let hash: u64 = 0xABCDEF_123456;
    db.insert_v1(99, hash).unwrap();
    assert_eq!(db.find_by_hash(hash), Some(99));
    assert_eq!(db.find_by_hash(0xDEADBEEF), None);
}

#[test]
fn test_v1_unique_id_hex_format() {
    let mut db = temp_db();
    let hash: u64 = 0x0000_AABBCCDDEEFF;
    db.insert_v1(10, hash).unwrap();
    let entries = db.list_all();
    assert_eq!(entries.len(), 1);
    assert_eq!(entries[0].unique_id_hex, "00000000000000000000aabbccddeeff");
    assert_eq!(
        entries[0].pseudo_unique_id,
        Some(0x0000_AABBCCDDEEFF_u64 as i64)
    );
}

#[test]
fn test_next_free_id_basic() {
    let mut db = temp_db();
    assert_eq!(db.next_free_id(&[], 127), Some(1));
    let uid: [u8; 16] = [1; 16];
    db.insert_v2(1, &uid).unwrap();
    assert_eq!(db.next_free_id(&[], 127), Some(2));
}

#[test]
fn test_next_free_id_with_reserved() {
    let mut db = temp_db();
    assert_eq!(db.next_free_id(&[1, 2], 127), Some(3));
}

#[test]
fn test_next_free_id_full_table() {
    let mut db = temp_db();
    for id in 1u16..=3 {
        let uid: [u8; 16] = [id as u8; 16];
        db.insert_v2(id, &uid).unwrap();
    }
    assert_eq!(db.next_free_id(&[], 3), None);
    assert_eq!(db.next_free_id(&[], 4), Some(4));
}

#[test]
fn test_record_static_node() {
    let mut db = temp_db();
    db.record_static_node(50).unwrap();
    let entries = db.list_all();
    assert_eq!(entries.len(), 1);
    assert_eq!(entries[0].node_id, 50);
    assert_eq!(entries[0].unique_id_hex, "0".repeat(32));
    assert_eq!(entries[0].pseudo_unique_id, None);
}

#[test]
fn test_record_static_node_no_overwrite() {
    let mut db = temp_db();
    let uid: [u8; 16] = [0xAB; 16];
    db.insert_v2(50, &uid).unwrap();
    db.record_static_node(50).unwrap();
    let entries = db.list_all();
    assert_eq!(entries.len(), 1);
    // Unique ID should still be the v2 one
    assert_eq!(
        entries[0].unique_id_hex,
        "abababababababababababababababababab"
            .chars()
            .take(32)
            .collect::<String>()
    );
}

#[test]
fn test_next_free_id_skips_static_nodes() {
    let mut db = temp_db();
    for id in 1u16..=5 {
        db.record_static_node(id).unwrap();
    }
    assert_eq!(db.next_free_id(&[], 127), Some(6));
}

#[test]
fn test_list_all_ordered() {
    let mut db = temp_db();
    let uid1: [u8; 16] = [1; 16];
    let uid2: [u8; 16] = [2; 16];
    db.insert_v2(20, &uid1).unwrap();
    db.insert_v2(10, &uid2).unwrap();
    let entries = db.list_all();
    assert_eq!(entries.len(), 2);
    assert_eq!(entries[0].node_id, 10);
    assert_eq!(entries[1].node_id, 20);
}

#[test]
fn test_bytes_to_hex() {
    assert_eq!(bytes_to_hex(&[0x00, 0xAB, 0xCD]), "00abcd");
    assert_eq!(bytes_to_hex(&[0; 16]), "0".repeat(32));
}

#[test]
fn test_open_reports_the_path() {
    match AllocationDb::open("/nonexistent-directory/x.db") {
        Ok(_) => panic!("a missing directory cannot be opened"),
        Err(e) => assert!(e.starts_with("Cannot open DB at /nonexistent-directory/x.db: ")),
    }
}

#[test]
fn test_open_refuses_a_nul_character() {
    match AllocationDb::open("a\0b") {
        Ok(_) => panic!("a path cannot hold a NUL character"),
        Err(e) => assert!(e.starts_with("Cannot open DB at a\0b: ")),
    }
}

#[test]
fn test_databases_in_memory_are_apart() {
    let mut first = temp_db();
    first.insert_v2(1, &[1; 16]).unwrap();
    let mut second = temp_db();
    assert!(second.list_all().is_empty());
    assert_eq!(first.list_all().len(), 1);
}

#[test]
fn test_insert_twice_is_refused() {
    let mut db = temp_db();
    db.insert_v2(42, &[1; 16]).unwrap();
    let e = db.insert_v2(42, &[2; 16]).unwrap_err();
    assert!(e.starts_with("DB insert_v2 failed: "));
    let e = db.insert_v1(42, 7).unwrap_err();
    assert!(e.starts_with("DB insert_v1 failed: "));
    assert_eq!(db.find_by_unique_id(&[1; 16]), Some(42));
    assert_eq!(db.find_by_unique_id(&[2; 16]), None);
    assert_eq!(db.find_by_hash(7), None);
}

#[test]
fn test_find_by_node_id() {
    let mut db = temp_db();
    assert!(db.find_by_node_id(9).is_none());
    db.insert_v1(9, 0x0000_0102_0304_0506).unwrap();
    let entry = db.find_by_node_id(9).unwrap();
    assert_eq!(entry.node_id, 9);
    assert_eq!(entry.unique_id_hex, "00000000000000000000010203040506");
    assert_eq!(entry.pseudo_unique_id, Some(0x0102_0304_0506));
    assert!(!entry.ts.is_empty());
    assert!(entry.needs_get_info());
}

#[test]
fn test_update_unique_id() {
    let mut db = temp_db();
    db.record_static_node(5).unwrap();
    db.record_static_node(6).unwrap();
    assert!(db.find_by_node_id(5).unwrap().needs_get_info());
    db.update_unique_id(5, &[0xCD; 16]).unwrap();
    db.update_unique_id(77, &[0xEF; 16]).unwrap();
    let entry = db.find_by_node_id(5).unwrap();
    assert_eq!(entry.unique_id_hex, "cd".repeat(16));
    assert!(!entry.needs_get_info());
    assert_eq!(db.find_by_node_id(6).unwrap().unique_id_hex, "0".repeat(32));
    assert_eq!(db.list_all().len(), 2);
}

#[test]
fn test_large_hash_is_found_again() {
    let mut db = temp_db();
    db.insert_v1(3, u64::MAX).unwrap();
    assert_eq!(db.find_by_hash(u64::MAX), Some(3));
    assert_eq!(db.list_all()[0].pseudo_unique_id, Some(-1));
    assert_eq!(hash_to_hex(u64::MAX), "00000000000000000000ffffffffffff");
}

#[test]
fn test_hex_tells_bytes_apart() {
    let texts: Vec<String> = (0u8..=255).map(|b| bytes_to_hex(&[b])).collect();
    for (b, text) in texts.iter().enumerate() {
        assert_eq!(*text, format!("{b:02x}"));
    }
}

#[test]
fn test_next_free_id_limits() {
    let mut db = temp_db();
    assert_eq!(db.next_free_id(&[], 0), None);
    assert_eq!(db.next_free_id(&[1], 1), None);
    assert_eq!(db.next_free_id(&[], 65535), Some(1));
}

#[test]
fn test_look_ups_leave_one_id_out() {
    let mut db = temp_db();
    db.insert_v2(8, &[1; 16]).unwrap();
    db.insert_v2(3, &[1; 16]).unwrap();
    db.insert_v1(9, 7).unwrap();
    db.insert_v1(4, 7).unwrap();
    // What was recorded first is found first.
    assert_eq!(db.find_by_unique_id(&[1; 16]), Some(8));
    assert_eq!(db.find_other_by_unique_id(&[1; 16], 3), Some(8));
    assert_eq!(db.find_other_by_unique_id(&[1; 16], 8), Some(3));
    assert_eq!(db.find_other_by_unique_id(&[2; 16], 3), None);
    assert_eq!(db.find_by_hash(7), Some(9));
    assert_eq!(db.find_other_by_hash(7, 4), Some(9));
    assert_eq!(db.find_other_by_hash(7, 9), Some(4));
    assert_eq!(db.find_other_by_hash(8, 9), None);
}

#[test]
fn test_placeholders_are_no_unique_ids() {
    let mut db = temp_db();
    db.record_static_node(5).unwrap();
    assert_eq!(db.find_by_unique_id(&[0; 16]), None);
    assert!(is_zero_id(&[0; 16]));
    let mut uid: [u8; 16] = [0; 16];
    uid[15] = 1;
    assert!(!is_zero_id(&uid));
}
