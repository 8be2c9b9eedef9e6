use zynsearch::engine::SearchEngineCore;
use zynsearch::http::{
    accepts_json, handle_delete_request, handle_index_request, request_authorized, result_filename, search_limit,
    search_stats, validate_search_query, ApiError, ApiErrorResponse, DocumentSourceKindRequest, HttpAuth,
    IndexRequestBody,
};
use zynsearch::index::DocumentSourceKind;

fn request(source_id: &str, content: &str, replace: Option<bool>) -> IndexRequestBody {
    IndexRequestBody {
        source_id: source_id.to_string(),
        content: content.to_string(),
        source_kind: None,
        replace_existing: replace,
    }
}

#[test]
fn basic_credentials_are_checked() {
    let auth = HttpAuth::new("user".to_string(), "pass".to_string());
    // "user:pass" in standard base64.
    assert!(auth.authorizes(Some("Basic dXNlcjpwYXNz")));
    // "user:wrong"
    assert!(!auth.authorizes(Some("Basic dXNlcjp3cm9uZw==")));
    // "userpass", no colon
    assert!(!auth.authorizes(Some("Basic dXNlcnBhc3M=")));
    assert!(!auth.authorizes(Some("Bearer dXNlcjpwYXNz")));
    assert!(!auth.authorizes(Some("Basic !!!")));
    assert!(!auth.authorizes(None));
    // "user:pa:ss" splits at the first colon.
    let auth2 = HttpAuth::new("user".to_string(), "pa:ss".to_string());
    assert!(auth2.authorizes(Some("Basic dXNlcjpwYTpzcw==")));
    assert!(request_authorized(&None, None));
    assert!(!request_authorized(&Some(auth), None));
}

#[test]
fn json_is_accepted_unless_refused() {
    assert!(accepts_json(None));
    assert!(accepts_json(Some("*/*")));
    assert!(accepts_json(Some("text/html, application/json;q=0.9")));
    assert!(!accepts_json(Some("text/html")));
    assert!(!accepts_json(Some("*/* ")));
}

#[test]
fn search_requests_are_validated() {
    assert_eq!(search_limit(None), 10);
    assert_eq!(search_limit(Some(0)), 1);
    assert_eq!(search_limit(Some(25)), 25);
    assert_eq!(validate_search_query("  fast car ").unwrap(), "fast car");
    let err = validate_search_query("   ").unwrap_err();
    assert_eq!(err.status, 400);
    assert_eq!(err.code, "bad_request");
    assert_eq!(err.message, "q is required");
    let stats = search_stats(3, 3);
    assert_eq!(stats.total_hits, 3);
    assert!(stats.truncated);
    assert!(!search_stats(2, 3).truncated);
    assert_eq!(result_filename("./docs/a.txt"), "docs/a.txt");
    assert_eq!(result_filename("/"), "/");
}

#[test]
fn index_requests_create_skip_and_replace() {
    let mut engine = SearchEngineCore::new();
    let created = handle_index_request(&mut engine, request("doc-a", "fast car", None)).unwrap();
    assert_eq!(created.document_id, 0);
    assert_eq!(created.status, "created");
    assert_eq!(created.source_id, "doc-a");

    let skipped = handle_index_request(&mut engine, request("doc-a", "slow train", Some(false))).unwrap();
    assert_eq!(skipped.document_id, 0);
    assert_eq!(skipped.status, "skipped");
    assert_eq!(engine.execute_search("train"), Vec::<String>::new());

    let replaced = handle_index_request(&mut engine, request("doc-a", "slow train", Some(true))).unwrap();
    assert_eq!(replaced.document_id, 1);
    assert_eq!(replaced.status, "replaced");
    assert_eq!(engine.execute_search("train"), vec!["doc-a".to_string()]);
    assert!(engine.execute_search("car").is_empty());

    let err = handle_index_request(&mut engine, request("  ", "x", None)).unwrap_err();
    assert_eq!(err.status, 400);
    assert_eq!(err.code, "bad_request");
    assert_eq!(err.message, "source_id is required");

    let mut with_kind = request("s3://b/k.txt", "cloud", None);
    with_kind.source_kind = Some(DocumentSourceKindRequest::S3Object);
    handle_index_request(&mut engine, with_kind).unwrap();
    assert_eq!(engine.index.document_metadata.get(&2).map(|m| m.source_kind), Some(DocumentSourceKind::S3Object));
}

#[test]
fn delete_requests_name_documents_by_id_or_source() {
    let mut engine = SearchEngineCore::new();
    handle_index_request(&mut engine, request("doc-a", "fast car", None)).unwrap();
    handle_index_request(&mut engine, request("doc-b", "fast bike", None)).unwrap();

    let by_source = handle_delete_request(&mut engine, "doc-b").unwrap();
    assert_eq!(by_source.document_id, 1);
    assert_eq!(by_source.source_id, "doc-b");
    assert_eq!(by_source.status, "deleted");

    let by_id = handle_delete_request(&mut engine, "0").unwrap();
    assert_eq!(by_id.document_id, 0);
    assert_eq!(by_id.source_id, "doc-a");
    assert!(engine.execute_search("fast").is_empty());

    let unknown_id = handle_delete_request(&mut engine, "42").unwrap();
    assert_eq!(unknown_id.document_id, 42);
    assert_eq!(unknown_id.source_id, "");

    let err = handle_delete_request(&mut engine, "nowhere").unwrap_err();
    assert_eq!(err.status, 404);
    assert_eq!(err.code, "not_found");
    assert_eq!(err.message, "document not found");
}

#[test]
fn errors_convert_into_their_body() {
    let e = ApiError { status: 404, code: "not_found".to_string(), message: "gone".to_string() };
    let body: ApiErrorResponse = e.into();
    assert_eq!(body.error.code, "not_found");
    assert_eq!(body.error.message, "gone");
    let k: DocumentSourceKind = DocumentSourceKindRequest::Filesystem.into();
    assert_eq!(k, DocumentSourceKind::Filesystem);
}
