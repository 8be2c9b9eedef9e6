//! The engine core: one index and one analyzer, with ingestion, search
//! that drops results whose source file has disappeared, and deletion.

use vstd::prelude::*;
use crate::analyzer::{analysis, TextAnalyzer};
use crate::index::{first_with_path, DocumentSourceKind, InvertedIndex};
use crate::searcher::{conjunctive_hits, lists_paths_of, SearchEngine};
use crate::text::views_of;

verus! {

/// `std::path::Path::exists`: whether a file-system entry exists at `path`.
/// Nothing is claimed of the answer: it depends on the disk.
#[verifier::external_body]
fn source_path_exists(path: &str) -> bool {
    std::path::Path::new(path).exists()
}

/// The hits of `ids` that stay: registered and not flagged missing, in
/// order.
pub open spec fn live_hits(paths: Map<usize, Seq<char>>, ids: Seq<usize>, missing: Seq<bool>) -> Seq<usize>
    decreases ids.len(),
{
    if ids.len() == 0 {
        Seq::empty()
    } else {
        let prev = live_hits(paths, ids.drop_last(), missing);
        if paths.contains_key(ids.last()) && !missing[ids.len() - 1] {
            prev.push(ids.last())
        } else {
            prev
        }
    }
}

/// The hits of `ids` that go: unregistered or flagged missing, in order.
pub open spec fn dead_hits(paths: Map<usize, Seq<char>>, ids: Seq<usize>, missing: Seq<bool>) -> Seq<usize>
    decreases ids.len(),
{
    if ids.len() == 0 {
        Seq::empty()
    } else {
        let prev = dead_hits(paths, ids.drop_last(), missing);
        if paths.contains_key(ids.last()) && !missing[ids.len() - 1] {
            prev
        } else {
            prev.push(ids.last())
        }
    }
}

/// The kinds a document indexed from text under a source id can get.
pub open spec fn kind_of_text_source(k: DocumentSourceKind) -> bool {
    k == DocumentSourceKind::Filesystem || k == DocumentSourceKind::Opaque
}

/// The kind a document under a source id gets, given whether the id names
/// an existing entry of the file system.
pub fn kind_for_source(file_exists: bool) -> (k: DocumentSourceKind)
    ensures
        k == if file_exists { DocumentSourceKind::Filesystem } else { DocumentSourceKind::Opaque },
{
    if file_exists {
        DocumentSourceKind::Filesystem
    } else {
        DocumentSourceKind::Opaque
    }
}

/// Whether a document of this kind counts as gone, given whether its
/// source file exists: only file-system documents can be gone, and they are
/// exactly when their file is not there.
pub fn missing_given(source_kind: DocumentSourceKind, file_exists: bool) -> (r: bool)
    ensures
        r == (source_kind == DocumentSourceKind::Filesystem && !file_exists),
{
    match source_kind {
        DocumentSourceKind::Filesystem => !file_exists,
        _ => false,
    }
}

/// The file-system documents of `index` whose file the answers report
/// gone; `exists[id]` answers for the document with id `id`.
pub open spec fn gone_documents(index: InvertedIndex, exists: Seq<bool>) -> Set<usize> {
    Set::new(|id: usize| index.kinds().contains_key(id) && index.kinds()[id] == DocumentSourceKind::Filesystem
        && !exists[id as int])
}

/// `post` is `pre` with one more document, id `pre.next_id()`, from `path`,
/// holding `terms`.
pub open spec fn ingested(
    pre: InvertedIndex,
    post: InvertedIndex,
    path: Seq<char>,
    kind: DocumentSourceKind,
    terms: Seq<Seq<char>>,
) -> bool {
    &&& post.wf()
    &&& post.next_id() == pre.next_id() + 1
    &&& post.paths() == pre.paths().insert(pre.next_id(), path)
    &&& post.kinds() == pre.kinds().insert(pre.next_id(), kind)
    &&& post.deleted() == pre.deleted()
    &&& forall|t: Seq<char>| #[trigger] post.has_term(t) == (pre.has_term(t) || terms.contains(t))
    &&& forall|t: Seq<char>| #[trigger] post.postings_for(t) == pre.postings_after_add(pre.next_id(), terms, t)
}

/// Which candidates count as vanished, given for each whether its source
/// file exists: exactly those whose document is a file-system one and
/// whose file is reported absent.
pub open spec fn vanished_flags(index: InvertedIndex, cands: Seq<Seq<char>>, exists: Seq<bool>) -> Seq<bool> {
    Seq::new(cands.len(), |k: int| kind_of_path(index, cands[k]) == DocumentSourceKind::Filesystem && !exists[k])
}

/// Which hits of a partition count as gone, given for each whether its
/// source file exists: exactly the registered file-system documents whose
/// file is reported absent.
pub open spec fn gone_hits(index: InvertedIndex, ids: Seq<usize>, exists: Seq<bool>) -> Seq<bool> {
    Seq::new(ids.len(), |k: int| index.kinds().contains_key(ids[k])
        && index.kinds()[ids[k]] == DocumentSourceKind::Filesystem && !exists[k])
}

/// What a search that drops vanished files did: `r` is what it answered
/// and `post` the index it left. The hits are listed as candidates, and the
/// file system answers for each whether its source file exists; the
/// file-system candidates reported absent are left out of the answer and
/// deleted.
pub open spec fn search_outcome(pre: InvertedIndex, post: InvertedIndex, query: Seq<char>, r: Seq<Seq<char>>) -> bool {
    exists|cands: Seq<Seq<char>>, exists: Seq<bool>|
        #![trigger lists_paths_of(pre, conjunctive_hits(pre, analysis(query)), cands), vanished_flags(pre, cands, exists)]
    {
        &&& lists_paths_of(pre, conjunctive_hits(pre, analysis(query)), cands)
        &&& exists.len() == cands.len()
        &&& r == kept_candidates(cands, vanished_flags(pre, cands, exists))
        &&& InvertedIndex::removed(pre, post,
            ids_removed_by_paths(pre.paths(), dropped_candidates(cands, vanished_flags(pre, cands, exists))))
    }
}

/// The registered documents of `pre` that `post` no longer holds.
pub open spec fn vanished(pre: InvertedIndex, post: InvertedIndex) -> Set<usize> {
    pre.paths().dom().difference(post.paths().dom())
}

/// The source kind recorded for the first document registered under `p`;
/// opaque when there is none.
pub open spec fn kind_of_path(index: InvertedIndex, p: Seq<char>) -> DocumentSourceKind {
    match first_with_path(index.paths(), p) {
        Some(id) => if index.kinds().contains_key(id) { index.kinds()[id] } else { DocumentSourceKind::Opaque },
        None => DocumentSourceKind::Opaque,
    }
}

/// The candidates not flagged missing, in order.
pub open spec fn kept_candidates(cands: Seq<Seq<char>>, missing: Seq<bool>) -> Seq<Seq<char>>
    decreases cands.len(),
{
    if cands.len() == 0 {
        Seq::empty()
    } else {
        let prev = kept_candidates(cands.drop_last(), missing);
        if missing[cands.len() - 1] {
            prev
        } else {
            prev.push(cands.last())
        }
    }
}

/// The candidates flagged missing, in order.
pub open spec fn dropped_candidates(cands: Seq<Seq<char>>, missing: Seq<bool>) -> Seq<Seq<char>>
    decreases cands.len(),
{
    if cands.len() == 0 {
        Seq::empty()
    } else {
        let prev = dropped_candidates(cands.drop_last(), missing);
        if missing[cands.len() - 1] {
            prev.push(cands.last())
        } else {
            prev
        }
    }
}

/// The registry left after deleting, one path after another, the first
/// document registered under each path.
pub open spec fn paths_after(m: Map<usize, Seq<char>>, dels: Seq<Seq<char>>) -> Map<usize, Seq<char>>
    decreases dels.len(),
{
    if dels.len() == 0 {
        m
    } else {
        let prev = paths_after(m, dels.drop_last());
        match first_with_path(prev, dels.last()) {
            Some(id) => prev.remove(id),
            None => prev,
        }
    }
}

/// The ids deleted when, one path after another, the first document
/// registered under each path is deleted.
pub open spec fn ids_removed_by_paths(m: Map<usize, Seq<char>>, dels: Seq<Seq<char>>) -> Set<usize>
    decreases dels.len(),
{
    if dels.len() == 0 {
        Set::empty()
    } else {
        let prev = ids_removed_by_paths(m, dels.drop_last());
        match first_with_path(paths_after(m, dels.drop_last()), dels.last()) {
            Some(id) => prev.insert(id),
            None => prev,
        }
    }
}

proof fn lemma_push_to_set(s: Seq<usize>, x: usize)
    ensures
        s.push(x).to_set() == s.to_set().insert(x),
{
    assert forall|y: usize| #[trigger] s.push(x).to_set().contains(y) == s.to_set().insert(x).contains(y) by {
        if s.contains(y) {
            let k = choose|k: int| 0 <= k < s.len() && s[k] == y;
            assert(s.push(x)[k] == y);
        }
        if s.push(x).contains(y) && y != x {
            let k = choose|k: int| 0 <= k < s.push(x).len() && s.push(x)[k] == y;
            assert(s[k] == y);
        }
        assert(s.push(x)[s.len() as int] == x);
    }
    assert(s.push(x).to_set() =~= s.to_set().insert(x));
}

/// An index with the analyzer that fills and queries it.
pub struct SearchEngineCore {
    pub index: InvertedIndex,
    pub analyzer: TextAnalyzer,
}

impl SearchEngineCore {
    /// An empty engine.
    pub fn new() -> (r: Self)
        ensures
            r.index.wf(),
            r.index.index@.len() == 0,
            r.index.paths() == Map::<usize, Seq<char>>::empty(),
            r.index.deleted() == Set::<usize>::empty(),
            r.index.next_id() == 0,
    {
        SearchEngineCore { index: InvertedIndex::new(), analyzer: TextAnalyzer::new() }
    }

    /// Registers a document from `source_id` and indexes `tokens` under it.
    pub fn ingest_document(&mut self, source_id: &str, source_kind: DocumentSourceKind, tokens: Vec<String>)
        requires
            old(self).index.wf(),
            old(self).index.next_id() < usize::MAX,
        ensures
            ingested(old(self).index, final(self).index, source_id@, source_kind, views_of(tokens@)),
    {
        let doc_id = self.index.register_document(source_id, source_kind);
        self.index.add_document(doc_id, tokens);
    }

    /// Analyzes `raw_text` and indexes it as a document from `path`: a
    /// file-system document when `path` names an existing entry of the file
    /// system, an opaque one otherwise.
    pub fn ingest_document_text(&mut self, path: &str, raw_text: &str)
        requires
            old(self).index.wf(),
            old(self).index.next_id() < usize::MAX,
        ensures
            kind_of_text_source(final(self).index.kinds()[old(self).index.next_id()]),
            ingested(old(self).index, final(self).index, path@,
                final(self).index.kinds()[old(self).index.next_id()], analysis(raw_text@)),
    {
        let tokens = self.analyzer.analyze(raw_text);
        let kind = self.source_kind_on_disk(path);
        self.ingest_document(path, kind, tokens);
    }

    /// The kind of a document indexed under `path`: a file-system document
    /// when the path names an existing entry of the file system, so that
    /// its disappearance is noticed; an opaque one otherwise.
    pub fn source_kind_on_disk(&self, path: &str) -> (k: DocumentSourceKind)
        ensures
            kind_of_text_source(k),
    {
        kind_for_source(source_path_exists(path))
    }

    /// Whether a document of this kind is known to be gone: only files on
    /// the local file system are checked, and only against the disk.
    fn is_missing_live_document(&self, source_kind: DocumentSourceKind, source_id: &str) -> (r: bool)
        ensures
            r ==> source_kind == DocumentSourceKind::Filesystem,
    {
        let file_exists = match source_kind {
            DocumentSourceKind::Filesystem => source_path_exists(source_id),
            _ => true,
        };
        missing_given(source_kind, file_exists)
    }

    /// Deletes the document with id `doc_id`.
    pub fn delete_document(&mut self, doc_id: usize)
        requires
            old(self).index.wf(),
        ensures
            InvertedIndex::removed(old(self).index, final(self).index, set![doc_id]),
    {
        let ghost pre = self.index;
        self.index.delete_document(doc_id);
        proof {
            InvertedIndex::lemma_removed_nothing(pre);
            InvertedIndex::lemma_removed_step(pre, pre, self.index, Set::empty(), doc_id);
            assert(Set::<usize>::empty().insert(doc_id) =~= set![doc_id]);
        }
    }

    /// Deletes the first document registered under `path`, if there is one.
    pub fn delete_document_by_path(&mut self, path: &str)
        requires
            old(self).index.wf(),
        ensures
            match first_with_path(old(self).index.paths(), path@) {
                Some(id) => InvertedIndex::removed(old(self).index, final(self).index, set![id]),
                None => final(self).index == old(self).index,
            },
    {
        match self.index.find_document_by_path(path) {
            Some(id) => self.delete_document(id),
            None => {},
        }
    }

    /// Keeps the candidates not flagged missing and deletes, for each flagged
    /// one in turn, the first document registered under its path.
    pub fn drop_missing_results(&mut self, candidates: Vec<String>, missing: &Vec<bool>) -> (kept: Vec<String>)
        requires
            old(self).index.wf(),
            missing@.len() == candidates@.len(),
        ensures
            views_of(kept@) == kept_candidates(views_of(candidates@), missing@),
            InvertedIndex::removed(old(self).index, final(self).index,
                ids_removed_by_paths(old(self).index.paths(), dropped_candidates(views_of(candidates@), missing@))),
    {
        let ghost cands = views_of(candidates@);
        let mut kept: Vec<String> = Vec::new();
        let mut doomed: Vec<String> = Vec::new();
        let mut i: usize = 0;
        while i < candidates.len()
            invariant
                i <= candidates@.len(),
                missing@.len() == candidates@.len(),
                cands == views_of(candidates@),
                views_of(kept@) == kept_candidates(cands.take(i as int), missing@),
                views_of(doomed@) == dropped_candidates(cands.take(i as int), missing@),
            decreases candidates@.len() - i,
        {
            proof {
                assert(cands.take(i + 1).drop_last() =~= cands.take(i as int));
            }
            let copy = candidates[i].clone();
            if missing[i] {
                let ghost d0 = views_of(doomed@);
                doomed.push(copy);
                proof {
                    assert(views_of(doomed@) =~= d0.push(cands[i as int]));
                }
            } else {
                let ghost k0 = views_of(kept@);
                kept.push(copy);
                proof {
                    assert(views_of(kept@) =~= k0.push(cands[i as int]));
                }
            }
            i = i + 1;
        }
        proof {
            assert(cands.take(candidates@.len() as int) =~= cands);
        }
        let ghost dels = views_of(doomed@);
        let ghost pre = self.index;
        proof {
            InvertedIndex::lemma_removed_nothing(pre);
        }
        let mut j: usize = 0;
        while j < doomed.len()
            invariant
                j <= doomed@.len(),
                dels == views_of(doomed@),
                InvertedIndex::removed(pre, self.index, ids_removed_by_paths(pre.paths(), dels.take(j as int))),
                self.index.paths() == paths_after(pre.paths(), dels.take(j as int)),
            decreases doomed@.len() - j,
        {
            proof {
                assert(dels.take(j + 1).drop_last() =~= dels.take(j as int));
            }
            let ghost before = self.index;
            let ghost ids_before = ids_removed_by_paths(pre.paths(), dels.take(j as int));
            match self.index.find_document_by_path(doomed[j].as_str()) {
                Some(id) => {
                    self.index.delete_document(id);
                    proof {
                        InvertedIndex::lemma_removed_step(pre, before, self.index, ids_before, id);
                    }
                },
                None => {},
            }
            j = j + 1;
        }
        proof {
            assert(dels.take(doomed@.len() as int) =~= dels);
        }
        kept
    }

    /// The source kind recorded for the first document registered under
    /// `path`; opaque when there is none.
    fn kind_of_candidate(&self, path: &str) -> (k: DocumentSourceKind)
        requires
            self.index.wf(),
        ensures
            k == kind_of_path(self.index, path@),
    {
        match self.index.find_document_by_path(path) {
            Some(id) => match self.index.document_metadata.get(&id) {
                Some(meta) => meta.source_kind,
                None => DocumentSourceKind::Opaque,
            },
            None => DocumentSourceKind::Opaque,
        }
    }

    /// Drops from `candidates`, and deletes, the file-system documents whose
    /// file `exists` reports absent (`exists[k]` answers for `candidates[k]`);
    /// the others are kept, in order.
    pub fn drop_vanished_hits(&mut self, candidates: Vec<String>, exists: &Vec<bool>) -> (kept: Vec<String>)
        requires
            old(self).index.wf(),
            exists@.len() == candidates@.len(),
        ensures
            views_of(kept@) == kept_candidates(views_of(candidates@),
                vanished_flags(old(self).index, views_of(candidates@), exists@)),
            InvertedIndex::removed(old(self).index, final(self).index,
                ids_removed_by_paths(old(self).index.paths(), dropped_candidates(views_of(candidates@),
                    vanished_flags(old(self).index, views_of(candidates@), exists@)))),
    {
        let ghost cands = views_of(candidates@);
        let mut missing: Vec<bool> = Vec::new();
        let mut i: usize = 0;
        while i < candidates.len()
            invariant
                i <= candidates@.len(),
                exists@.len() == candidates@.len(),
                missing@.len() == i,
                self.index.wf(),
                self.index == old(self).index,
                cands == views_of(candidates@),
                forall|k: int| 0 <= k < i ==> #[trigger] missing@[k]
                    == (kind_of_path(self.index, cands[k]) == DocumentSourceKind::Filesystem && !exists@[k]),
            decreases candidates@.len() - i,
        {
            let kind = self.kind_of_candidate(candidates[i].as_str());
            proof {
                assert(candidates@[i as int]@ == cands[i as int]);
            }
            missing.push(missing_given(kind, exists[i]));
            i = i + 1;
        }
        proof {
            assert(missing@ =~= vanished_flags(self.index, cands, exists@));
        }
        self.drop_missing_results(candidates, &missing)
    }

    /// Searches, then drops (and deletes) the hits whose source file is gone:
    /// the file system is asked, for each file-system hit, whether its
    /// source file exists.
    pub fn execute_search(&mut self, raw_query: &str) -> (r: Vec<String>)
        requires
            old(self).index.wf(),
        ensures
            final(self).index.wf(),
            search_outcome(old(self).index, final(self).index, raw_query@, views_of(r@)),
    {
        let matching_paths = {
            let searcher = SearchEngine::new(&self.index, &self.analyzer);
            searcher.search(raw_query)
        };
        let ghost cands = views_of(matching_paths@);
        let mut exists: Vec<bool> = Vec::new();
        let mut i: usize = 0;
        while i < matching_paths.len()
            invariant
                i <= matching_paths@.len(),
                exists@.len() == i,
                self.index.wf(),
                self.index == old(self).index,
                cands == views_of(matching_paths@),
            decreases matching_paths@.len() - i,
        {
            let path = matching_paths[i].as_str();
            let answer = match self.kind_of_candidate(path) {
                DocumentSourceKind::Filesystem => source_path_exists(path),
                _ => true,
            };
            exists.push(answer);
            i = i + 1;
        }
        let ghost answers = exists@;
        let kept = self.drop_vanished_hits(matching_paths, &exists);
        proof {
            assert(lists_paths_of(old(self).index, conjunctive_hits(old(self).index, analysis(raw_query@)), cands));
            assert(kept_candidates(cands, vanished_flags(old(self).index, cands, answers)) == views_of(kept@));
        }
        kept
    }

    /// For each hit of a partition, whether it is known to be gone: a
    /// registered file-system document whose file the file system reports
    /// absent. Which files exist is the disk's to say.
    pub fn missing_flags(&self, doc_ids: &Vec<usize>) -> (flags: Vec<bool>)
        requires
            self.index.wf(),
        ensures
            flags@.len() == doc_ids@.len(),
            exists|answers: Seq<bool>| {
                &&& answers.len() == doc_ids@.len()
                &&& flags@ == #[trigger] gone_hits(self.index, doc_ids@, answers)
            },
    {
        let mut flags: Vec<bool> = Vec::new();
        let ghost mut answers: Seq<bool> = Seq::empty();
        let mut i: usize = 0;
        while i < doc_ids.len()
            invariant
                i <= doc_ids@.len(),
                flags@.len() == i,
                answers.len() == i,
                self.index.wf(),
                forall|k: int| 0 <= k < flags@.len() ==> #[trigger] flags@[k]
                    == (self.index.kinds().contains_key(doc_ids@[k])
                    && self.index.kinds()[doc_ids@[k]] == DocumentSourceKind::Filesystem && !answers[k]),
            decreases doc_ids@.len() - i,
        {
            let id = doc_ids[i];
            let gone = match self.index.document_metadata.get(&id) {
                Some(meta) => self.is_missing_live_document(meta.source_kind, meta.source_id.as_str()),
                None => false,
            };
            proof {
                if self.index.document_metadata@.contains_key(id) {
                    assert(self.index.kinds()[id] == self.index.document_metadata@[id].source_kind);
                }
            }
            flags.push(gone);
            proof {
                answers = answers.push(!gone);
            }
            i = i + 1;
        }
        proof {
            assert(flags@ =~= gone_hits(self.index, doc_ids@, answers));
        }
        flags
    }

    /// Keeps, of a partition's hits, the registered documents not flagged
    /// missing, in order, and deletes the others.
    pub fn retain_live_hits(&mut self, doc_ids: &Vec<usize>, missing: &Vec<bool>) -> (kept: Vec<usize>)
        requires
            old(self).index.wf(),
            missing@.len() == doc_ids@.len(),
        ensures
            kept@ == live_hits(old(self).index.paths(), doc_ids@, missing@),
            InvertedIndex::removed(old(self).index, final(self).index,
                dead_hits(old(self).index.paths(), doc_ids@, missing@).to_set()),
    {
        let ghost paths = self.index.paths();
        let mut kept: Vec<usize> = Vec::new();
        let mut doomed: Vec<usize> = Vec::new();
        let mut i: usize = 0;
        while i < doc_ids.len()
            invariant
                i <= doc_ids@.len(),
                missing@.len() == doc_ids@.len(),
                self.index == old(self).index,
                paths == self.index.paths(),
                self.index.wf(),
                kept@ == live_hits(paths, doc_ids@.take(i as int), missing@),
                doomed@ == dead_hits(paths, doc_ids@.take(i as int), missing@),
            decreases doc_ids@.len() - i,
        {
            let id = doc_ids[i];
            proof {
                assert(doc_ids@.take(i + 1).drop_last() =~= doc_ids@.take(i as int));
                assert(doc_ids@.take(i + 1).last() == id);
            }
            let registered = self.index.document_registry.contains_key(&id);
            if registered && !missing[i] {
                kept.push(id);
            } else {
                doomed.push(id);
            }
            i = i + 1;
        }
        proof {
            assert(doc_ids@.take(doc_ids@.len() as int) =~= doc_ids@);
        }
        self.delete_documents(&doomed);
        kept
    }

    /// Deletes the documents with the given ids, one after another.
    pub fn delete_documents(&mut self, ids: &Vec<usize>)
        requires
            old(self).index.wf(),
        ensures
            InvertedIndex::removed(old(self).index, final(self).index, ids@.to_set()),
    {
        let ghost pre = self.index;
        proof {
            InvertedIndex::lemma_removed_nothing(pre);
            assert(ids@.take(0).to_set() =~= Set::<usize>::empty());
        }
        let mut j: usize = 0;
        while j < ids.len()
            invariant
                j <= ids@.len(),
                InvertedIndex::removed(pre, self.index, ids@.take(j as int).to_set()),
            decreases ids@.len() - j,
        {
            let ghost before = self.index;
            self.index.delete_document(ids[j]);
            proof {
                InvertedIndex::lemma_removed_step(pre, before, self.index, ids@.take(j as int).to_set(), ids@[j as int]);
                assert(ids@.take(j + 1) =~= ids@.take(j as int).push(ids@[j as int]));
                lemma_push_to_set(ids@.take(j as int), ids@[j as int]);
            }
            j = j + 1;
        }
        proof {
            assert(ids@.take(ids@.len() as int) =~= ids@);
        }
    }

    /// Deletes every file-system document whose file `exists` reports gone
    /// (`exists[id]` answers for the document with id `id`); the others stay.
    pub fn remove_vanished(&mut self, exists: &Vec<bool>)
        requires
            old(self).index.wf(),
            exists@.len() == old(self).index.next_id(),
        ensures
            vanished(old(self).index, final(self).index) == gone_documents(old(self).index, exists@),
            InvertedIndex::removed(old(self).index, final(self).index, gone_documents(old(self).index, exists@)),
    {
        let ghost gone = gone_documents(self.index, exists@);
        let mut to_delete: Vec<usize> = Vec::new();
        let mut id: usize = 0;
        while id < self.index.next_document_id
            invariant
                id <= self.index.next_id(),
                exists@.len() == self.index.next_id(),
                self.index.wf(),
                self.index == old(self).index,
                gone == gone_documents(self.index, exists@),
                forall|k: int| 0 <= k < to_delete@.len() ==> #[trigger] to_delete@[k] < id
                    && gone.contains(to_delete@[k]),
                forall|j: usize| j < id && #[trigger] gone.contains(j) ==> to_delete@.contains(j),
            decreases self.index.next_id() - id,
        {
            let gone_here: bool = match self.index.document_metadata.get(&id) {
                Some(metadata) => missing_given(metadata.source_kind, exists[id]),
                None => false,
            };
            proof {
                if self.index.document_metadata@.contains_key(id) {
                    assert(self.index.kinds()[id] == self.index.document_metadata@[id].source_kind);
                }
                assert(gone_here == gone.contains(id));
            }
            let ghost prev = to_delete@;
            if gone_here {
                to_delete.push(id);
            }
            proof {
                assert forall|j: usize| j < id + 1 && #[trigger] gone.contains(j) implies to_delete@.contains(j) by {
                    if j < id {
                        let k = choose|k: int| 0 <= k < prev.len() && prev[k] == j;
                        assert(to_delete@[k] == j);
                    } else {
                        assert(to_delete@[to_delete@.len() - 1] == j);
                    }
                }
            }
            id = id + 1;
        }
        proof {
            assert forall|j: usize| #[trigger] gone.contains(j) implies to_delete@.to_set().contains(j) by {
                if j >= id {
                    assert(self.index.document_registry@.contains_key(j));
                }
            }
            assert forall|j: usize| #[trigger] to_delete@.to_set().contains(j) implies gone.contains(j) by {
                let k = choose|k: int| 0 <= k < to_delete@.len() && to_delete@[k] == j;
            }
            assert(to_delete@.to_set() =~= gone);
        }
        self.delete_documents(&to_delete);
        proof {
            assert(vanished(old(self).index, self.index) =~= gone);
        }
    }

    /// Deletes every file-system document whose file no longer exists. The
    /// file system answers, for each file-system document, whether its
    /// source file exists; `remove_vanished` then deletes exactly those it
    /// reports gone.
    pub fn cleanup_non_existent_documents(&mut self)
        requires
            old(self).index.wf(),
        ensures
            exists|answers: Seq<bool>| {
                &&& answers.len() == old(self).index.next_id()
                &&& vanished(old(self).index, final(self).index) == #[trigger] gone_documents(old(self).index, answers)
                &&& InvertedIndex::removed(old(self).index, final(self).index, gone_documents(old(self).index, answers))
            },
    {
        let mut exists: Vec<bool> = Vec::new();
        let mut id: usize = 0;
        while id < self.index.next_document_id
            invariant
                id <= self.index.next_id(),
                exists@.len() == id,
                self.index.wf(),
                self.index == old(self).index,
            decreases self.index.next_id() - id,
        {
            let answer = match self.index.document_metadata.get(&id) {
                Some(metadata) => match metadata.source_kind {
                    DocumentSourceKind::Filesystem => source_path_exists(metadata.source_id.as_str()),
                    _ => true,
                },
                None => true,
            };
            exists.push(answer);
            id = id + 1;
        }
        let ghost answers = exists@;
        self.remove_vanished(&exists);
        proof {
            assert(vanished(old(self).index, self.index) == gone_documents(old(self).index, answers));
        }
    }
}

} // verus!
