use std::time::Duration;

use zynsearch::api::{create_engine, ZynSearch, ZynSearchBuilder};
use zynsearch::index::DocumentSourceKind;

#[test]
fn builder_creates_embeddable_engine() {
    let mut engine = ZynSearch::builder().shard_count(4).build();
    engine.index_text("doc-1", "fast car and red bike");
    engine.index_text("doc-2", "slow train and blue bus");

    let results = engine.search("fast car");
    assert_eq!(results.len(), 1);
    assert_eq!(results[0], "doc-1");
}

#[test]
fn create_engine_helper_is_available() {
    let mut engine = create_engine();
    engine.index_text("doc-1", "fast car and red bike");
    let results = engine.search("fast car");
    assert_eq!(results, vec!["doc-1".to_string()]);
}

#[test]
fn document_paths_resolve_and_deleted_documents_vanish() {
    let mut engine = create_engine();
    engine.index_document("doc-1", "fast car and red bike");
    engine.index_tokens("doc-2", vec!["fast".to_string(), "car".to_string()]);
    assert_eq!(engine.document_path(0), Some("doc-1".to_string()));
    assert_eq!(engine.document_path(1), Some("doc-2".to_string()));
    assert_eq!(engine.document_path(7), None);

    let mut both = engine.search("fast car");
    both.sort();
    assert_eq!(both, vec!["doc-1".to_string(), "doc-2".to_string()]);

    engine.delete_document_by_path("doc-1");
    assert_eq!(engine.search("fast car"), vec!["doc-2".to_string()]);
    engine.delete_document(1);
    assert!(engine.search("fast car").is_empty());
    assert_eq!(engine.document_path(1), None);
}

#[test]
fn queries_of_stop_words_or_unknown_terms_find_nothing() {
    let mut engine = create_engine();
    engine.index_text("doc-1", "fast car and red bike");
    assert!(engine.search("the and").is_empty());
    assert!(engine.search("fast airplane").is_empty());
}

#[test]
fn names_that_are_no_files_survive_cleanup() {
    let mut engine = create_engine();
    engine.index_text("no/such/file.txt", "fast car");
    assert_eq!(
        engine.engine_core().index.document_metadata.get(&0).map(|m| m.source_kind),
        Some(DocumentSourceKind::Opaque)
    );
    engine.cleanup_non_existent_documents();
    assert_eq!(engine.search("car"), vec!["no/such/file.txt".to_string()]);
}

#[test]
fn text_indexed_under_an_existing_path_is_checked_against_the_disk() {
    let mut engine = create_engine();
    engine.index_text("/", "fast car");
    engine.index_tokens("/", vec!["car".to_string()]);
    let index = &engine.engine_core().index;
    assert_eq!(index.document_metadata.get(&0).map(|m| m.source_kind), Some(DocumentSourceKind::Filesystem));
    assert_eq!(index.document_metadata.get(&1).map(|m| m.source_kind), Some(DocumentSourceKind::Filesystem));
    engine.cleanup_non_existent_documents();
    assert_eq!(engine.search("fast car"), vec!["/".to_string()]);
}

#[test]
fn builder_settings_are_kept() {
    let b = ZynSearchBuilder::default();
    assert_eq!(b.periodic_cleanup_interval(), None);
    assert_eq!(ZynSearch::builder().enable_periodic_cleanup(true).periodic_cleanup_interval(), Some(Duration::from_secs(60)));
    let b = ZynSearch::builder().enable_periodic_cleanup(true).cleanup_interval(Duration::from_secs(5));
    assert_eq!(b.periodic_cleanup_interval(), Some(Duration::from_secs(5)));
    assert_eq!(ZynSearch::builder().shard_count(0).build().shard_count(), 1);
    assert_eq!(ZynSearch::builder().shard_count(3).build().shard_count(), 3);
    assert_eq!(create_engine().engine_core().index.next_document_id, 0);
}
