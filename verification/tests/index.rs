use zynsearch::engine::{kind_for_source, missing_given, SearchEngineCore};
use zynsearch::query_pipeline::in_partition;
use zynsearch::index::{DocumentSourceKind, InvertedIndex};
use zynsearch::searcher::SearchEngine;
use zynsearch::analyzer::TextAnalyzer;

#[test]
fn postings_record_term_frequencies() {
    let mut index = InvertedIndex::new();
    let id = index.register_document("a", DocumentSourceKind::Opaque);
    assert_eq!(id, 0);
    index.add_document(id, vec!["x".to_string(), "y".to_string(), "x".to_string()]);
    let slot = index.find_term(&"x".to_string()).unwrap();
    assert_eq!(index.index[slot].1.len(), 1);
    assert_eq!(index.index[slot].1[0].document_id, 0);
    assert_eq!(index.index[slot].1[0].frequency, 2);
    assert!(index.term_has_document(&"y".to_string(), 0));
    assert!(!index.term_has_document(&"z".to_string(), 0));
}

#[test]
fn deleted_documents_are_not_found_and_ids_are_not_reused() {
    let mut index = InvertedIndex::new();
    let a = index.register_document("a", DocumentSourceKind::Opaque);
    index.add_document(a, vec!["zebra".to_string()]);
    let b = index.register_document("a", DocumentSourceKind::Filesystem);
    index.add_document(b, vec!["zebra".to_string()]);
    assert_eq!(index.find_document_by_path("a"), Some(0));
    index.delete_document(a);
    assert_eq!(index.find_document_by_path("a"), Some(1));
    assert!(!index.term_has_document(&"zebra".to_string(), 0));
    let c = index.register_document("c", DocumentSourceKind::Opaque);
    assert_eq!(c, 2);
    let analyzer = TextAnalyzer::new();
    let searcher = SearchEngine::new(&index, &analyzer);
    assert_eq!(searcher.search("zebra"), vec!["a".to_string()]);
}

#[test]
fn a_document_deleted_before_its_id_is_given_out_stays_hidden() {
    let mut index = InvertedIndex::new();
    index.delete_document(0);
    let id = index.register_document("late", DocumentSourceKind::Opaque);
    index.add_document(id, vec!["word".to_string()]);
    let analyzer = TextAnalyzer::new();
    let searcher = SearchEngine::new(&index, &analyzer);
    assert!(searcher.search("word").is_empty());
}

#[test]
fn partition_hits_keep_only_live_registered_documents() {
    let mut engine = SearchEngineCore::new();
    engine.ingest_document("a", DocumentSourceKind::Opaque, vec!["zebra".to_string()]);
    engine.ingest_document("b", DocumentSourceKind::S3Object, vec!["zebra".to_string()]);
    engine.ingest_document("no/such/file.txt", DocumentSourceKind::Filesystem, vec!["zebra".to_string()]);
    let ids = vec![0, 1, 2, 9];
    let flags = engine.missing_flags(&ids);
    assert_eq!(flags, vec![false, false, true, false]);
    let kept = engine.retain_live_hits(&ids, &vec![false, true, true, false]);
    assert_eq!(kept, vec![0]);
    assert_eq!(engine.index.document_registry.len(), 1);
    assert!(in_partition(7, 1, 3));
    assert!(!in_partition(7, 0, 3));
    assert_eq!(kind_for_source(true), DocumentSourceKind::Filesystem);
    assert_eq!(kind_for_source(false), DocumentSourceKind::Opaque);
}

#[test]
fn only_file_system_documents_with_a_missing_file_count_as_gone() {
    assert!(missing_given(DocumentSourceKind::Filesystem, false));
    assert!(!missing_given(DocumentSourceKind::Filesystem, true));
    assert!(!missing_given(DocumentSourceKind::Opaque, false));
    assert!(!missing_given(DocumentSourceKind::S3Object, false));
}

#[test]
fn vanished_files_are_removed_and_the_rest_stays() {
    let mut engine = SearchEngineCore::new();
    engine.ingest_document("one.txt", DocumentSourceKind::Filesystem, vec!["zebra".to_string()]);
    engine.ingest_document("two.txt", DocumentSourceKind::Filesystem, vec!["zebra".to_string()]);
    engine.ingest_document("three", DocumentSourceKind::Opaque, vec!["zebra".to_string()]);
    engine.ingest_document("four.txt", DocumentSourceKind::Filesystem, vec!["zebra".to_string()]);
    engine.remove_vanished(&vec![true, false, false, false]);
    assert!(engine.index.document_registry.contains_key(&0));
    assert!(!engine.index.document_registry.contains_key(&1));
    assert!(engine.index.document_registry.contains_key(&2));
    assert!(!engine.index.document_registry.contains_key(&3));
    assert!(engine.index.deleted_documents.contains(&1));
    assert!(engine.index.deleted_documents.contains(&3));
    assert_eq!(engine.index.deleted_documents.len(), 2);
}

#[test]
fn cleanup_removes_file_system_documents_whose_file_is_gone() {
    let mut engine = SearchEngineCore::new();
    engine.ingest_document("/", DocumentSourceKind::Filesystem, vec!["zebra".to_string()]);
    engine.ingest_document("no/such/file.txt", DocumentSourceKind::Filesystem, vec!["zebra".to_string()]);
    engine.ingest_document("no/such/either.txt", DocumentSourceKind::Opaque, vec!["zebra".to_string()]);
    engine.cleanup_non_existent_documents();
    assert!(engine.index.document_registry.contains_key(&0));
    assert!(!engine.index.document_registry.contains_key(&1));
    assert!(engine.index.document_registry.contains_key(&2));
}

#[test]
fn term_statistics_list_live_postings_of_the_partition() {
    let mut engine = SearchEngineCore::new();
    engine.ingest_document("a", DocumentSourceKind::Opaque, vec!["zebra".to_string(), "zebra".to_string()]);
    engine.ingest_document("b", DocumentSourceKind::Opaque, vec!["zebra".to_string(), "lion".to_string()]);
    engine.ingest_document("c", DocumentSourceKind::Opaque, vec!["zebra".to_string()]);
    engine.ingest_document("d", DocumentSourceKind::Opaque, vec!["lion".to_string()]);
    engine.delete_document(2);
    let searcher = SearchEngine::new(&engine.index, &engine.analyzer);
    let stats = searcher.term_statistics("zebras and tigers and lions", 0, 2);
    assert_eq!(stats.len(), 2);
    assert_eq!(stats[0].document_frequency, 2);
    assert_eq!(stats[0].postings.len(), 1);
    assert_eq!(stats[0].postings[0].document_id, 0);
    assert_eq!(stats[0].postings[0].frequency, 2);
    assert_eq!(stats[1].document_frequency, 2);
    assert!(stats[1].postings.is_empty());
    let odd = searcher.term_statistics("lion", 1, 2);
    assert_eq!(odd.len(), 1);
    assert_eq!(odd[0].postings.len(), 2);
    assert_eq!(odd[0].postings[0].document_id, 1);
    assert_eq!(odd[0].postings[1].document_id, 3);
    let empty = SearchEngineCore::new();
    assert!(SearchEngine::new(&empty.index, &empty.analyzer).term_statistics("zebra", 0, 1).is_empty());
}

#[test]
fn document_lengths_sum_term_frequencies() {
    let mut engine = SearchEngineCore::new();
    engine.ingest_document("a", DocumentSourceKind::Opaque, vec!["zebra".to_string(), "lion".to_string(), "zebra".to_string()]);
    engine.ingest_document("b", DocumentSourceKind::Opaque, vec!["lion".to_string()]);
    let searcher = SearchEngine::new(&engine.index, &engine.analyzer);
    assert_eq!(searcher.document_length(0), Some(3));
    assert_eq!(searcher.document_length(1), Some(1));
    assert_eq!(searcher.document_length(7), None);
}
