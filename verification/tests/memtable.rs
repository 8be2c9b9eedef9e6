use zynsearch::memtable::MemTable;

#[test]
fn memtable_extracts_documents_in_id_order() {
    let mut memtable = MemTable::new();
    memtable.insert(30, "the quick brown fox".to_string());
    memtable.insert(10, "Jumps over the lazy doc".to_string());
    memtable.insert(20, "ZynSearch is blindingly fast".to_string());

    assert!(memtable.get_size_bytes() > 0);

    let sorted_data = memtable.extract_all_sorted();

    assert_eq!(sorted_data.len(), 3);
    assert_eq!(sorted_data[0].0, 10);
    assert_eq!(sorted_data[1].0, 20);
    assert_eq!(sorted_data[2].0, 30);
    assert_eq!(sorted_data[1].1, "ZynSearch is blindingly fast");
}

#[test]
fn memtable_counts_bytes_and_replaces_by_id() {
    let mut memtable = MemTable::new();
    assert_eq!(memtable.get_size_bytes(), 0);
    assert!(memtable.is_full(0));
    assert!(!memtable.is_full(1));
    memtable.insert(1, "héllo".to_string());
    assert_eq!(memtable.get_size_bytes(), 6);
    memtable.insert(1, "abc".to_string());
    assert_eq!(memtable.get_size_bytes(), 9);
    assert!(memtable.is_full(9));
    assert!(!memtable.is_full(10));
    assert_eq!(memtable.extract_all_sorted(), vec![(1, "abc".to_string())]);
}
