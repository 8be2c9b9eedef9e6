use zynsearch::sharding::{ClusterOrchestrator, IncomingDocument};

#[test]
fn test_document_sharding() {
    let orchestrator = ClusterOrchestrator::new(3);

    let doc1 = IncomingDocument { document_id: "ZYN-001".to_string(), text: "apple".to_string() };
    let doc2 = IncomingDocument { document_id: "ZYN-002".to_string(), text: "banana".to_string() };
    let doc3 = IncomingDocument { document_id: "ZYN-003".to_string(), text: "cherry".to_string() };

    assert!(orchestrator.route(&doc1) < 3);
    assert!(orchestrator.route(&doc2) < 3);
    assert!(orchestrator.route(&doc3) < 3);

    let first_check = orchestrator.calculate_shard_for_document("ZYN-001");
    let second_check = orchestrator.calculate_shard_for_document("ZYN-001");

    assert_eq!(first_check, second_check)
}

#[test]
fn nodes_are_named_and_placed_by_number() {
    let orchestrator = ClusterOrchestrator::new(12);
    assert_eq!(orchestrator.shards.len(), 12);
    assert_eq!(orchestrator.shards[0].name, "Node-0");
    assert_eq!(orchestrator.shards[0].storage_dir, "./data/shard_0");
    assert_eq!(orchestrator.shards[11].name, "Node-11");
    assert_eq!(orchestrator.shards[11].storage_dir, "./data/shard_11");
    assert!(ClusterOrchestrator::new(0).shards.is_empty());
}

#[test]
fn a_hash_picks_its_remainder() {
    let orchestrator = ClusterOrchestrator::new(3);
    assert_eq!(orchestrator.shard_for_hash(10), 1);
    assert_eq!(orchestrator.shard_for_hash(u64::MAX), (u64::MAX % 3) as usize);
}

#[test]
fn routing_follows_the_document_id() {
    let orchestrator = ClusterOrchestrator::new(5);
    let doc = IncomingDocument { document_id: "ZYN-042".to_string(), text: "pear".to_string() };
    assert_eq!(orchestrator.route(&doc), orchestrator.calculate_shard_for_document("ZYN-042"));
}
