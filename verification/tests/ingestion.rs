use zynsearch::engine::SearchEngineCore;
use zynsearch::index::DocumentSourceKind;
use zynsearch::ingestion::{
    ingest_collected, ingest_documents, ingest_source, DocumentFormat, IngestionDocument, IngestionSource, IngestionSourceKind,
    LocalDirIngestionSource, S3IngestionSource,
};

struct MockSource {
    kind: IngestionSourceKind,
    docs: Vec<IngestionDocument>,
}

impl IngestionSource for MockSource {
    fn kind(&self) -> IngestionSourceKind {
        self.kind
    }

    fn collect_documents(&self) -> Result<Vec<IngestionDocument>, String> {
        Ok(self.docs.clone())
    }
}

struct FailingSource;

impl IngestionSource for FailingSource {
    fn kind(&self) -> IngestionSourceKind {
        IngestionSourceKind::LocalDir
    }

    fn collect_documents(&self) -> Result<Vec<IngestionDocument>, String> {
        Err("unreachable bucket".to_string())
    }
}

#[test]
fn ingest_pipeline_accepts_any_source_implementation() {
    let mut engine = SearchEngineCore::new();
    let source = MockSource {
        kind: IngestionSourceKind::S3,
        docs: vec![
            IngestionDocument {
                source_id: "s3://bucket/doc-1.txt".to_string(),
                source_kind: DocumentSourceKind::S3Object,
                body: "fast car on s3".to_string(),
            },
            IngestionDocument {
                source_id: "s3://bucket/doc-2.txt".to_string(),
                source_kind: DocumentSourceKind::S3Object,
                body: "another fast vehicle".to_string(),
            },
        ],
    };

    let indexed = ingest_source(&mut engine, &source).unwrap();
    assert_eq!(indexed.len(), 2);
    assert!(indexed[0].starts_with("s3://"));
    assert_eq!(source.kind(), IngestionSourceKind::S3);
}

#[test]
fn s3_source_can_be_configured_without_live_access() {
    let source = S3IngestionSource::new("demo-bucket", Some("corpus/".to_string()));
    assert_eq!(source.kind(), IngestionSourceKind::S3);
    assert_eq!(source.bucket, "demo-bucket");
    assert_eq!(source.prefix.as_deref(), Some("corpus/"));
}

#[test]
fn a_failing_source_leaves_the_engine_alone() {
    let mut engine = SearchEngineCore::new();
    let err = ingest_source(&mut engine, &FailingSource).unwrap_err();
    assert_eq!(err, "unreachable bucket");
    assert_eq!(engine.index.next_document_id, 0);
}

#[test]
fn ingested_documents_get_consecutive_ids_and_are_searchable() {
    let mut engine = SearchEngineCore::new();
    let docs = vec![
        IngestionDocument {
            source_id: "a.txt".to_string(),
            source_kind: DocumentSourceKind::S3Object,
            body: "red bicycle".to_string(),
        },
        IngestionDocument {
            source_id: "b.txt".to_string(),
            source_kind: DocumentSourceKind::Opaque,
            body: "blue bicycle".to_string(),
        },
    ];
    let ids = ingest_documents(&mut engine, docs);
    assert_eq!(ids, vec!["a.txt".to_string(), "b.txt".to_string()]);
    assert_eq!(engine.index.next_document_id, 2);
    assert_eq!(engine.index.document_registry.get(&1).map(|s| s.as_str()), Some("b.txt"));
    let mut found = engine.execute_search("bicycle");
    found.sort();
    assert_eq!(found, vec!["a.txt".to_string(), "b.txt".to_string()]);
}

#[test]
fn object_formats_follow_the_lower_cased_extension() {
    assert_eq!(S3IngestionSource::object_format("corpus/notes.MD"), Some(DocumentFormat::Markdown));
    assert_eq!(S3IngestionSource::object_format("a/b.txt"), Some(DocumentFormat::PlainText));
    assert_eq!(S3IngestionSource::object_format("report.Pdf"), Some(DocumentFormat::Pdf));
    assert_eq!(S3IngestionSource::object_format("sheet.xlsx"), Some(DocumentFormat::Xlsx));
    assert_eq!(S3IngestionSource::object_format("image.png"), None);
    assert_eq!(S3IngestionSource::object_format("README"), None);
    assert_eq!(S3IngestionSource::object_format(".txt"), None);
}

#[test]
fn sources_report_their_settings() {
    let local = LocalDirIngestionSource::new("./corpus");
    assert_eq!(local.root_dir(), "./corpus");
    assert_eq!(local.kind(), IngestionSourceKind::LocalDir);
    let s3 = S3IngestionSource::new("b", None);
    assert_eq!(s3.listing_prefix(), "");
    let s3 = S3IngestionSource::new("b", Some("p/".to_string()));
    assert_eq!(s3.listing_prefix(), "p/");
}

#[test]
fn collected_outcomes_are_ingested_or_passed_on() {
    let mut engine = SearchEngineCore::new();
    assert_eq!(ingest_collected(&mut engine, Err("boom".to_string())), Err("boom".to_string()));
    assert_eq!(engine.index.next_document_id, 0);
    let docs = vec![IngestionDocument {
        source_id: "n.md".to_string(),
        source_kind: DocumentSourceKind::Filesystem,
        body: "notes".to_string(),
    }];
    assert_eq!(ingest_collected(&mut engine, Ok(docs)), Ok(vec!["n.md".to_string()]));
    assert_eq!(engine.index.next_document_id, 1);
}
