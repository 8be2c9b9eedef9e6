//! Sources of documents and feeding what they collect into an engine.

use vstd::prelude::*;
use crate::analyzer::analysis;
use crate::engine::{ingested, SearchEngineCore};
use crate::index::{occurrences, DocumentSourceKind, InvertedIndex, Posting};
use crate::paths::{ascii_lower, extension_of, path_extension, to_ascii_lower};
use crate::text::{same_text, views_of};

verus! {

/// The kind of place documents are collected from.
#[derive(Debug, Clone, Copy, PartialEq, Eq, Structural)]
pub enum IngestionSourceKind {
    LocalDir,
    S3,
}

/// One collected document: where it came from and its normalised text.
#[derive(Debug, Clone)]
pub struct IngestionDocument {
    pub source_id: String,
    pub source_kind: DocumentSourceKind,
    pub body: String,
}

/// A place documents can be collected from.
pub trait IngestionSource {
    fn kind(&self) -> IngestionSourceKind;

    fn collect_documents(&self) -> Result<Vec<IngestionDocument>, String>;
}

/// Documents under a directory of the local file system.
pub struct LocalDirIngestionSource {
    root_dir: String,
}

impl LocalDirIngestionSource {
    pub closed spec fn root(self) -> Seq<char> {
        self.root_dir@
    }

    /// The documents under `root_dir`.
    pub fn new(root_dir: &str) -> (r: Self)
        ensures
            r.root() == root_dir@,
    {
        LocalDirIngestionSource { root_dir: root_dir.to_string() }
    }

    /// The directory documents are collected under.
    pub fn root_dir(&self) -> (r: &str)
        ensures
            r@ == self.root(),
    {
        self.root_dir.as_str()
    }

    /// Always `LocalDir`.
    pub fn kind(&self) -> (k: IngestionSourceKind)
        ensures
            k == IngestionSourceKind::LocalDir,
    {
        IngestionSourceKind::LocalDir
    }
}

/// Objects of an S3 bucket, optionally under a key prefix.
pub struct S3IngestionSource {
    pub bucket: String,
    pub prefix: Option<String>,
}

/// How the body of a collected object is turned into text.
#[derive(Debug, Clone, Copy, PartialEq, Eq, Structural)]
pub enum DocumentFormat {
    Markdown,
    PlainText,
    Csv,
    Docx,
    Xlsx,
    Pdf,
}

/// The format a lower-case extension names.
pub open spec fn format_named(ext: Seq<char>) -> Option<DocumentFormat> {
    if ext == "md"@ {
        Some(DocumentFormat::Markdown)
    } else if ext == "txt"@ {
        Some(DocumentFormat::PlainText)
    } else if ext == "csv"@ {
        Some(DocumentFormat::Csv)
    } else if ext == "docx"@ {
        Some(DocumentFormat::Docx)
    } else if ext == "xlsx"@ {
        Some(DocumentFormat::Xlsx)
    } else if ext == "pdf"@ {
        Some(DocumentFormat::Pdf)
    } else {
        None
    }
}

/// The format of an object, by the lower-cased extension of its key; none
/// for a key whose extension is not a supported one.
pub open spec fn object_format_of(key: Seq<char>) -> Option<DocumentFormat> {
    format_named(ascii_lower(match path_extension(key) {
        Some(e) => e,
        None => Seq::empty(),
    }))
}

impl S3IngestionSource {
    /// The objects of `bucket` under `prefix`, if one is given.
    pub fn new(bucket: &str, prefix: Option<String>) -> (r: Self)
        ensures
            r.bucket@ == bucket@,
            r.prefix == prefix,
    {
        S3IngestionSource { bucket: bucket.to_string(), prefix }
    }

    /// Always `S3`.
    pub fn kind(&self) -> (k: IngestionSourceKind)
        ensures
            k == IngestionSourceKind::S3,
    {
        IngestionSourceKind::S3
    }

    /// The key prefix the listing starts from: the configured prefix, or the
    /// whole bucket.
    pub fn listing_prefix(&self) -> (r: String)
        ensures
            r@ == match self.prefix {
                Some(p) => p@,
                None => Seq::empty(),
            },
    {
        match &self.prefix {
            Some(p) => p.clone(),
            None => String::new(),
        }
    }

    /// The format an object key calls for, if its extension is supported.
    pub fn object_format(key: &str) -> (r: Option<DocumentFormat>)
        ensures
            r == object_format_of(key@),
    {
        let ext = match extension_of(key) {
            Some(e) => e,
            None => String::new(),
        };
        let lower = to_ascii_lower(ext.as_str());
        let l = lower.as_str();
        if same_text(l, "md") {
            Some(DocumentFormat::Markdown)
        } else if same_text(l, "txt") {
            Some(DocumentFormat::PlainText)
        } else if same_text(l, "csv") {
            Some(DocumentFormat::Csv)
        } else if same_text(l, "docx") {
            Some(DocumentFormat::Docx)
        } else if same_text(l, "xlsx") {
            Some(DocumentFormat::Xlsx)
        } else if same_text(l, "pdf") {
            Some(DocumentFormat::Pdf)
        } else {
            None
        }
    }
}

// ---------------------------------------------------------------------
// Ingesting a batch of documents.
// ---------------------------------------------------------------------

/// The index terms of a collected document.
pub open spec fn doc_terms(d: IngestionDocument) -> Seq<Seq<char>> {
    analysis(d.body@)
}

/// The source ids of `docs`, in order.
pub open spec fn source_ids(docs: Seq<IngestionDocument>) -> Seq<Seq<char>> {
    docs.map_values(|d: IngestionDocument| d.source_id@)
}

/// The registry after `docs` are registered from id `first` on.
pub open spec fn paths_after_batch(m: Map<usize, Seq<char>>, first: nat, docs: Seq<IngestionDocument>) -> Map<usize, Seq<char>>
    decreases docs.len(),
{
    if docs.len() == 0 {
        m
    } else {
        paths_after_batch(m, first, docs.drop_last()).insert((first + docs.len() - 1) as usize, docs.last().source_id@)
    }
}

/// The source kinds after `docs` are registered from id `first` on.
pub open spec fn kinds_after_batch(m: Map<usize, DocumentSourceKind>, first: nat, docs: Seq<IngestionDocument>) -> Map<usize, DocumentSourceKind>
    decreases docs.len(),
{
    if docs.len() == 0 {
        m
    } else {
        kinds_after_batch(m, first, docs.drop_last()).insert((first + docs.len() - 1) as usize, docs.last().source_kind)
    }
}

/// The posting list of `t` after `docs` are indexed from id `first` on.
pub open spec fn postings_after_batch(ps: Seq<Posting>, first: nat, docs: Seq<IngestionDocument>, t: Seq<char>) -> Seq<Posting>
    decreases docs.len(),
{
    if docs.len() == 0 {
        ps
    } else {
        let prev = postings_after_batch(ps, first, docs.drop_last(), t);
        let terms = doc_terms(docs.last());
        if terms.contains(t) {
            prev.push(Posting { document_id: (first + docs.len() - 1) as usize, frequency: occurrences(terms, t) as usize })
        } else {
            prev
        }
    }
}

/// Some document of `docs` holds term `t`.
pub open spec fn batch_has_term(docs: Seq<IngestionDocument>, t: Seq<char>) -> bool {
    exists|k: int| 0 <= k < docs.len() && #[trigger] doc_terms(docs[k]).contains(t)
}

/// `post` is `pre` after the documents `docs` were ingested in order.
pub open spec fn ingested_all(pre: InvertedIndex, post: InvertedIndex, docs: Seq<IngestionDocument>) -> bool {
    &&& post.wf()
    &&& post.next_id() == pre.next_id() + docs.len()
    &&& post.paths() == paths_after_batch(pre.paths(), pre.next_id() as nat, docs)
    &&& post.kinds() == kinds_after_batch(pre.kinds(), pre.next_id() as nat, docs)
    &&& post.deleted() == pre.deleted()
    &&& forall|t: Seq<char>| #[trigger] post.has_term(t) == (pre.has_term(t) || batch_has_term(docs, t))
    &&& forall|t: Seq<char>| #[trigger] post.postings_for(t)
        == postings_after_batch(pre.postings_for(t), pre.next_id() as nat, docs, t)
}

/// Indexes the documents in order, each under its source id and kind, and
/// gives back their source ids.
pub fn ingest_documents(engine: &mut SearchEngineCore, documents: Vec<IngestionDocument>) -> (indexed: Vec<String>)
    requires
        old(engine).index.wf(),
        old(engine).index.next_id() + documents@.len() < usize::MAX,
    ensures
        ingested_all(old(engine).index, final(engine).index, documents@),
        views_of(indexed@) == source_ids(documents@),
{
    let ghost pre = engine.index;
    let mut indexed: Vec<String> = Vec::new();
    let mut i: usize = 0;
    proof {
        assert(documents@.take(0) =~= Seq::<IngestionDocument>::empty());
        assert(views_of(indexed@) =~= source_ids(documents@.take(0)));
    }
    while i < documents.len()
        invariant
            i <= documents@.len(),
            pre.next_id() + documents@.len() < usize::MAX,
            ingested_all(pre, engine.index, documents@.take(i as int)),
            views_of(indexed@) == source_ids(documents@.take(i as int)),
        decreases documents@.len() - i,
    {
        let document = &documents[i];
        let tokens = engine.analyzer.analyze(document.body.as_str());
        let ghost before = engine.index;
        engine.ingest_document(document.source_id.as_str(), document.source_kind, tokens);
        let ghost prefix = documents@.take(i as int);
        let ghost next = documents@.take(i + 1);
        proof {
            assert(next.drop_last() =~= prefix);
            assert(next.last() == documents@[i as int]);
            assert forall|t: Seq<char>| #[trigger] batch_has_term(next, t)
                == (batch_has_term(prefix, t) || doc_terms(documents@[i as int]).contains(t)) by {
                if batch_has_term(next, t) {
                    let k = choose|k: int| 0 <= k < next.len() && #[trigger] doc_terms(next[k]).contains(t);
                    if k < i {
                        assert(prefix[k] == next[k]);
                    }
                }
                if batch_has_term(prefix, t) {
                    let k = choose|k: int| 0 <= k < prefix.len() && #[trigger] doc_terms(prefix[k]).contains(t);
                    assert(next[k] == prefix[k]);
                }
                if doc_terms(documents@[i as int]).contains(t) {
                    assert(next[i as int] == documents@[i as int]);
                }
            }
            assert forall|t: Seq<char>| #[trigger] engine.index.has_term(t)
                == (pre.has_term(t) || batch_has_term(next, t)) by {
                assert(engine.index.has_term(t) == (before.has_term(t) || views_of(tokens@).contains(t)));
            }
            assert forall|t: Seq<char>| #[trigger] engine.index.postings_for(t)
                == postings_after_batch(pre.postings_for(t), pre.next_id() as nat, next, t) by {
                assert(engine.index.postings_for(t) == before.postings_after_add(before.next_id(), views_of(tokens@), t));
            }
        }
        let ghost ids0 = indexed@;
        let id_copy = document.source_id.clone();
        indexed.push(id_copy);
        proof {
            assert(indexed@ == ids0.push(id_copy));
            assert(views_of(indexed@) =~= views_of(ids0).push(documents@[i as int].source_id@));
            assert(source_ids(next) =~= source_ids(prefix).push(documents@[i as int].source_id@));
        }
        i = i + 1;
    }
    proof {
        assert(documents@.take(documents@.len() as int) =~= documents@);
    }
    indexed
}

/// The message a batch that would exhaust the document ids is refused with.
pub open spec fn too_many_documents() -> Seq<char> {
    "too many documents for the remaining document ids"@
}

/// What ingesting a source's outcome does: its error is passed on; its
/// documents are indexed in order, unless they would exhaust the document
/// ids, which is refused. Refusals leave the index as it was.
pub open spec fn collected_ingestion(
    pre: InvertedIndex,
    post: InvertedIndex,
    collected: Result<Vec<IngestionDocument>, String>,
    r: Result<Vec<String>, String>,
) -> bool {
    match collected {
        Err(e) => r == Err::<Vec<String>, String>(e) && post == pre,
        Ok(docs) => if pre.next_id() + docs@.len() < usize::MAX {
            &&& r is Ok
            &&& ingested_all(pre, post, docs@)
            &&& views_of(r->Ok_0@) == source_ids(docs@)
        } else {
            &&& r matches Err(m) && m@ == too_many_documents()
            &&& post == pre
        },
    }
}

/// Indexes what a source collected: its documents in order, giving back
/// their source ids, or its error.
pub fn ingest_collected(engine: &mut SearchEngineCore, collected: Result<Vec<IngestionDocument>, String>) -> (r: Result<Vec<String>, String>)
    requires
        old(engine).index.wf(),
    ensures
        final(engine).index.wf(),
        collected_ingestion(old(engine).index, final(engine).index, collected, r),
{
    let documents = match collected {
        Ok(documents) => documents,
        Err(e) => return Err(e),
    };
    if documents.len() >= usize::MAX - engine.index.next_document_id {
        return Err("too many documents for the remaining document ids".to_string());
    }
    Ok(ingest_documents(engine, documents))
}

/// Collects the documents of `source` and indexes them in order; gives
/// back their source ids, or the source's error. Collecting more documents
/// than there are ids left is refused, with the engine unchanged.
pub fn ingest_source<S: IngestionSource>(engine: &mut SearchEngineCore, source: &S) -> (r: Result<Vec<String>, String>)
    requires
        old(engine).index.wf(),
    ensures
        final(engine).index.wf(),
        exists|collected: Result<Vec<IngestionDocument>, String>| {
            &&& call_ensures(S::collect_documents, (source,), collected)
            &&& #[trigger] collected_ingestion(old(engine).index, final(engine).index, collected, r)
        },
{
    let collected = source.collect_documents();
    let ghost c = collected;
    let r = ingest_collected(engine, collected);
    proof {
        assert(collected_ingestion(old(engine).index, engine.index, c, r));
    }
    r
}

} // verus!
