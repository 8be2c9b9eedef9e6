//! The embeddable facade: an engine with a partition count, built through a
//! small builder.

use vstd::prelude::*;
use std::time::Duration;
use crate::analyzer::analysis;
use crate::engine::{gone_documents, kind_of_text_source, search_outcome, vanished, ingested, SearchEngineCore};
use crate::ingestion::{collected_ingestion, ingest_source, IngestionDocument, IngestionSource};
use crate::index::{first_with_path, DocumentSourceKind, InvertedIndex};
use crate::text::views_of;

verus! {

broadcast use vstd::std_specs::hash::group_hash_axioms;

/// The duration `Duration::from_secs` makes of a number of seconds.
pub uninterp spec fn seconds_duration(secs: u64) -> Duration;

/// `Duration::from_secs`: a duration of `secs` whole seconds. The contract
/// claims only that the result is a fixed function of `secs`; `Duration` is
/// opaque here.
#[verifier::external_body]
fn duration_from_secs(secs: u64) -> (d: Duration)
    ensures
        d == seconds_duration(secs),
{
    Duration::from_secs(secs)
}

/// An embeddable search engine.
pub struct ZynSearch {
    core: SearchEngineCore,
    shard_count: usize,
}

/// Configures a `ZynSearch` before it is built.
pub struct ZynSearchBuilder {
    shard_count: usize,
    enable_periodic_cleanup: bool,
    cleanup_interval: Duration,
}

impl ZynSearch {
    /// The engine state.
    pub closed spec fn engine(self) -> SearchEngineCore {
        self.core
    }

    /// The number of partitions scored searches are spread over.
    pub closed spec fn partitions(self) -> usize {
        self.shard_count
    }

    /// The index is well formed and there is at least one partition.
    pub closed spec fn wf(self) -> bool {
        &&& self.core.index.wf()
        &&& self.shard_count >= 1
    }

    /// Create a new builder to configure ZynSearch programmatically.
    pub fn builder() -> (b: ZynSearchBuilder)
        ensures
            b.configured_shard_count() == 1,
            !b.cleanup_enabled(),
            b.configured_interval() == seconds_duration(60),
    {
        ZynSearchBuilder::default()
    }

    /// Index a document from raw text. A source id that names an existing
    /// entry of the file system makes a file-system document, which
    /// searches drop (and delete) once the entry is gone; any other source
    /// id makes an opaque document.
    pub fn index_text(&mut self, source_id: &str, raw_text: &str)
        requires
            old(self).wf(),
            old(self).engine().index.next_id() < usize::MAX,
        ensures
            final(self).wf(),
            final(self).partitions() == old(self).partitions(),
            kind_of_text_source(final(self).engine().index.kinds()[old(self).engine().index.next_id()]),
            ingested(old(self).engine().index, final(self).engine().index, source_id@,
                final(self).engine().index.kinds()[old(self).engine().index.next_id()], analysis(raw_text@)),
    {
        self.core.ingest_document_text(source_id, raw_text);
    }

    /// Index a document from raw text, as `index_text` does.
    pub fn index_document(&mut self, source_id: &str, raw_text: &str)
        requires
            old(self).wf(),
            old(self).engine().index.next_id() < usize::MAX,
        ensures
            final(self).wf(),
            final(self).partitions() == old(self).partitions(),
            kind_of_text_source(final(self).engine().index.kinds()[old(self).engine().index.next_id()]),
            ingested(old(self).engine().index, final(self).engine().index, source_id@,
                final(self).engine().index.kinds()[old(self).engine().index.next_id()], analysis(raw_text@)),
    {
        self.core.ingest_document_text(source_id, raw_text);
    }

    /// Index a document directly from pre-tokenized tokens; its kind is
    /// chosen as `index_text` chooses it.
    pub fn index_tokens(&mut self, source_id: &str, tokens: Vec<String>)
        requires
            old(self).wf(),
            old(self).engine().index.next_id() < usize::MAX,
        ensures
            final(self).wf(),
            final(self).partitions() == old(self).partitions(),
            kind_of_text_source(final(self).engine().index.kinds()[old(self).engine().index.next_id()]),
            ingested(old(self).engine().index, final(self).engine().index, source_id@,
                final(self).engine().index.kinds()[old(self).engine().index.next_id()], views_of(tokens@)),
    {
        let kind = self.core.source_kind_on_disk(source_id);
        self.core.ingest_document(source_id, kind, tokens);
    }

    /// Index the documents a source collects, in order; gives back their
    /// source ids, or the source's error.
    pub fn index_source<S: IngestionSource>(&mut self, source: &S) -> (r: Result<Vec<String>, String>)
        requires
            old(self).wf(),
        ensures
            final(self).wf(),
            final(self).partitions() == old(self).partitions(),
            exists|collected: Result<Vec<IngestionDocument>, String>| {
                &&& call_ensures(S::collect_documents, (source,), collected)
                &&& #[trigger] collected_ingestion(old(self).engine().index, final(self).engine().index, collected, r)
            },
    {
        let r = ingest_source(&mut self.core, source);
        proof {
            assert(old(self).engine().index == old(self).core.index);
            assert(self.engine().index == self.core.index);
        }
        r
    }

    /// Retrieve matching document paths using a raw search query; hits whose
    /// source file has disappeared are dropped and deleted.
    pub fn search(&mut self, query: &str) -> (r: Vec<String>)
        requires
            old(self).wf(),
        ensures
            final(self).wf(),
            final(self).partitions() == old(self).partitions(),
            search_outcome(old(self).engine().index, final(self).engine().index, query@, views_of(r@)),
    {
        self.core.execute_search(query)
    }

    /// Resolve a numerical document id to the path it was registered under.
    pub fn document_path(&self, doc_id: usize) -> (r: Option<String>)
        requires
            self.wf(),
        ensures
            match r {
                Some(p) => self.engine().index.paths().contains_key(doc_id)
                    && p@ == self.engine().index.paths()[doc_id],
                None => !self.engine().index.paths().contains_key(doc_id),
            },
    {
        match self.core.index.document_registry.get(&doc_id) {
            Some(path) => Some(path.clone()),
            None => None,
        }
    }

    /// The number of partitions scored searches are spread over.
    pub fn shard_count(&self) -> (n: usize)
        ensures
            n == self.partitions(),
    {
        self.shard_count
    }

    /// Get a direct reference to the underlying core engine state.
    pub fn engine_core(&self) -> (c: &SearchEngineCore)
        ensures
            *c == self.engine(),
    {
        &self.core
    }

    /// Delete a document from the registry and the postings by its id.
    pub fn delete_document(&mut self, doc_id: usize)
        requires
            old(self).wf(),
        ensures
            final(self).wf(),
            final(self).partitions() == old(self).partitions(),
            InvertedIndex::removed(old(self).engine().index, final(self).engine().index, set![doc_id]),
    {
        self.core.delete_document(doc_id);
    }

    /// Delete the first document registered under `path`, if there is one.
    pub fn delete_document_by_path(&mut self, path: &str)
        requires
            old(self).wf(),
        ensures
            final(self).wf(),
            final(self).partitions() == old(self).partitions(),
            match first_with_path(old(self).engine().index.paths(), path@) {
                Some(id) => InvertedIndex::removed(old(self).engine().index, final(self).engine().index, set![id]),
                None => final(self).engine().index == old(self).engine().index,
            },
    {
        self.core.delete_document_by_path(path);
    }

    /// Remove every file-system document whose file no longer exists.
    pub fn cleanup_non_existent_documents(&mut self)
        requires
            old(self).wf(),
        ensures
            final(self).wf(),
            final(self).partitions() == old(self).partitions(),
            exists|answers: Seq<bool>| {
                &&& answers.len() == old(self).engine().index.next_id()
                &&& vanished(old(self).engine().index, final(self).engine().index)
                    == #[trigger] gone_documents(old(self).engine().index, answers)
                &&& InvertedIndex::removed(old(self).engine().index, final(self).engine().index,
                    gone_documents(old(self).engine().index, answers))
            },
    {
        self.core.cleanup_non_existent_documents();
        proof {
            assert(self.engine().index == self.core.index);
            assert(old(self).engine().index == old(self).core.index);
        }
    }
}

impl ZynSearchBuilder {
    /// The partition count asked for.
    pub closed spec fn configured_shard_count(self) -> usize {
        self.shard_count
    }

    /// Whether periodic cleanup is asked for.
    pub closed spec fn cleanup_enabled(self) -> bool {
        self.enable_periodic_cleanup
    }

    /// The interval asked for between cleanups.
    pub closed spec fn configured_interval(self) -> Duration {
        self.cleanup_interval
    }

    /// Configure default partition shard count.
    pub fn shard_count(self, shard_count: usize) -> (b: Self)
        ensures
            b.configured_shard_count() == shard_count,
            b.cleanup_enabled() == self.cleanup_enabled(),
            b.configured_interval() == self.configured_interval(),
    {
        let mut b = self;
        b.shard_count = shard_count;
        b
    }

    /// Configure whether periodic background cleanup loop is enabled.
    pub fn enable_periodic_cleanup(self, enabled: bool) -> (b: Self)
        ensures
            b.configured_shard_count() == self.configured_shard_count(),
            b.cleanup_enabled() == enabled,
            b.configured_interval() == self.configured_interval(),
    {
        let mut b = self;
        b.enable_periodic_cleanup = enabled;
        b
    }

    /// Configure cleanup interval duration.
    pub fn cleanup_interval(self, interval: Duration) -> (b: Self)
        ensures
            b.configured_shard_count() == self.configured_shard_count(),
            b.cleanup_enabled() == self.cleanup_enabled(),
            b.configured_interval() == interval,
    {
        let mut b = self;
        b.cleanup_interval = interval;
        b
    }

    /// The interval at which the caller is to run the periodic cleanup, when
    /// it is enabled.
    pub fn periodic_cleanup_interval(&self) -> (r: Option<Duration>)
        ensures
            r == if self.cleanup_enabled() { Some(self.configured_interval()) } else { None },
    {
        if self.enable_periodic_cleanup {
            Some(self.cleanup_interval)
        } else {
            None
        }
    }

    /// Finalize configuration and instantiate the search engine, with at
    /// least one partition.
    pub fn build(self) -> (z: ZynSearch)
        ensures
            z.wf(),
            z.partitions() == if self.configured_shard_count() == 0 { 1 } else { self.configured_shard_count() },
            z.engine().index.paths() == Map::<usize, Seq<char>>::empty(),
            z.engine().index.index@.len() == 0,
            z.engine().index.deleted() == Set::<usize>::empty(),
            z.engine().index.next_id() == 0,
    {
        let shard_count = if self.shard_count == 0 { 1 } else { self.shard_count };
        ZynSearch { core: SearchEngineCore::new(), shard_count }
    }
}

impl Default for ZynSearchBuilder {
    fn default() -> (b: Self)
        ensures
            b.configured_shard_count() == 1,
            !b.cleanup_enabled(),
            b.configured_interval() == seconds_duration(60),
    {
        ZynSearchBuilder { shard_count: 1, enable_periodic_cleanup: false, cleanup_interval: duration_from_secs(60) }
    }
}

/// Instantiate a ZynSearch engine with default configuration.
pub fn create_engine() -> (z: ZynSearch)
    ensures
        z.wf(),
        z.partitions() == 1,
        z.engine().index.paths() == Map::<usize, Seq<char>>::empty(),
        z.engine().index.index@.len() == 0,
        z.engine().index.deleted() == Set::<usize>::empty(),
        z.engine().index.next_id() == 0,
{
    ZynSearchBuilder::default().build()
}

} // verus!
