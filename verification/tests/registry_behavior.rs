use chunk_transfer::UploadError;
use chunk_transfer::registry::ChunkRegistry;

#[test]
fn record_out_of_order_last_write_wins() {
    let mut reg = ChunkRegistry::new(3600);
    // Slots written out of order, index 1 twice: the last write wins.
    assert_eq!(reg.record_digest("u1", 1, 3, "old", 0), Ok(true));
    assert_eq!(reg.record_digest("u1", 0, 3, "d0", 1), Ok(false));
    assert_eq!(reg.record_digest("u1", 1, 3, "d1", 2), Ok(false));
    assert_eq!(reg.record_digest("u1", 2, 3, "d2", 3), Ok(false));
    let slots = reg.list_slots("u1");
    assert_eq!(slots, vec!["d0".to_string(), "d1".to_string(), "d2".to_string()]);
}

#[test]
fn first_chunk_allocates_sentinel_slots() {
    let mut reg = ChunkRegistry::new(3600);
    assert_eq!(reg.record_digest("u1", 1, 3, "d1", 0), Ok(true));
    let slots = reg.list_slots("u1");
    assert_eq!(slots, vec!["empty".to_string(), "d1".to_string(), "empty".to_string()]);
}

#[test]
fn out_of_range_index_rejected_without_mutation() {
    let mut reg = ChunkRegistry::new(3600);
    assert_eq!(reg.record_digest("u1", 0, 2, "d0", 0), Ok(true));
    let before = reg.list_slots("u1");
    assert_eq!(reg.record_digest("u1", 2, 2, "d2", 1), Err(UploadError::IndexOutOfRange));
    assert_eq!(reg.record_digest("u1", 9, 2, "d9", 1), Err(UploadError::IndexOutOfRange));
    assert_eq!(reg.list_slots("u1"), before);
}

#[test]
fn out_of_range_index_on_first_chunk_creates_nothing() {
    let mut reg = ChunkRegistry::new(3600);
    assert_eq!(reg.record_digest("u1", 5, 3, "d5", 0), Err(UploadError::IndexOutOfRange));
    assert!(reg.list_slots("u1").is_empty());
    assert!(!reg.contains("u1"));
}

#[test]
fn unknown_identifier_lists_empty() {
    let reg = ChunkRegistry::new(3600);
    assert!(reg.list_slots("never-seen").is_empty());
    assert!(reg.take_for_merge("never-seen").is_none());
}

#[test]
fn remove_is_idempotent() {
    let mut reg = ChunkRegistry::new(3600);
    assert_eq!(reg.record_digest("u1", 0, 1, "d0", 0), Ok(true));
    assert!(reg.remove("u1"));
    assert!(!reg.remove("u1"));
    assert!(reg.list_slots("u1").is_empty());
}

#[test]
fn identifiers_do_not_interfere() {
    let mut reg = ChunkRegistry::new(3600);
    assert_eq!(reg.record_digest("u1", 0, 1, "a", 0), Ok(true));
    assert_eq!(reg.record_digest("u2", 0, 2, "b", 0), Ok(true));
    assert_eq!(reg.list_slots("u1"), vec!["a".to_string()]);
    assert_eq!(reg.list_slots("u2"), vec!["b".to_string(), "empty".to_string()]);
    reg.remove("u1");
    assert_eq!(reg.list_slots("u2"), vec!["b".to_string(), "empty".to_string()]);
}

#[test]
fn expiry_removes_entry_and_names_its_chunks() {
    let mut reg = ChunkRegistry::new(100);
    assert_eq!(reg.record_digest("u1", 0, 2, "d0", 10), Ok(true));
    assert_eq!(reg.record_digest("u1", 1, 2, "d1", 11), Ok(false));
    // Deadline is creation time plus survival: 110.
    assert!(reg.expire_entry("u1", 109).is_none());
    assert_eq!(reg.list_slots("u1"), vec!["d0".to_string(), "d1".to_string()]);
    let reclaimed = reg.expire_entry("u1", 110).expect("entry should expire at its deadline");
    assert_eq!(reclaimed, vec!["d0".to_string(), "d1".to_string()]);
    assert!(reg.list_slots("u1").is_empty());
    // A second firing finds nothing, as after a merge that won the race.
    assert!(reg.expire_entry("u1", 111).is_none());
}

#[test]
fn identifier_may_restart_after_removal() {
    let mut reg = ChunkRegistry::new(50);
    assert_eq!(reg.record_digest("u1", 0, 1, "d0", 0), Ok(true));
    assert!(reg.remove("u1"));
    // Fresh lifecycle: the entry is created anew with a new slot count.
    assert_eq!(reg.record_digest("u1", 1, 4, "d1", 60), Ok(true));
    assert_eq!(
        reg.list_slots("u1"),
        vec![
            "empty".to_string(),
            "d1".to_string(),
            "empty".to_string(),
            "empty".to_string()
        ]
    );
}
