//! The inverted index: for each term the postings of the documents that
//! contain it, plus a registry from document ids back to their sources.

use vstd::prelude::*;
use std::collections::{HashMap, HashSet};
use crate::text::{same_text, views_of};

verus! {

broadcast use vstd::std_specs::hash::group_hash_axioms;

/// Where an indexed document came from; decides whether its liveness can
/// be checked against the filesystem.
#[derive(Clone, Copy, Debug, PartialEq, Eq, Structural)]
pub enum DocumentSourceKind {
    Opaque,
    Filesystem,
    S3Object,
}

/// What the index remembers about the source of a document.
#[derive(Clone, Debug)]
pub struct DocumentMetadata {
    pub source_id: String,
    pub source_kind: DocumentSourceKind,
}

/// One document's entry in the posting list of a term.
#[derive(Clone, Copy, Debug, PartialEq, Eq, Structural)]
pub struct Posting {
    pub document_id: usize,
    pub frequency: usize,
}

/// The postings of `ps` that do not belong to document `id`, in order.
pub open spec fn without_doc(ps: Seq<Posting>, id: usize) -> Seq<Posting>
    decreases ps.len(),
{
    if ps.len() == 0 {
        Seq::empty()
    } else {
        let prev = without_doc(ps.drop_last(), id);
        if ps.last().document_id == id {
            prev
        } else {
            prev.push(ps.last())
        }
    }
}

/// How many times `t` occurs in `s`.
pub open spec fn occurrences(s: Seq<Seq<char>>, t: Seq<char>) -> nat
    decreases s.len(),
{
    if s.len() == 0 {
        0
    } else {
        occurrences(s.drop_last(), t) + if s.last() == t { 1nat } else { 0nat }
    }
}

proof fn lemma_occurrences_bound(s: Seq<Seq<char>>, t: Seq<char>)
    ensures
        occurrences(s, t) <= s.len(),
        occurrences(s, t) > 0 <==> s.contains(t),
    decreases s.len(),
{
    if s.len() > 0 {
        lemma_occurrences_bound(s.drop_last(), t);
        if s.drop_last().contains(t) {
            let k = choose|k: int| 0 <= k < s.drop_last().len() && s.drop_last()[k] == t;
            assert(s[k] == t);
        }
        if s.contains(t) && s.last() != t {
            let k = choose|k: int| 0 <= k < s.len() && s[k] == t;
            assert(k != s.len() - 1);
            assert(s.drop_last()[k] == t);
        }
    }
}

/// The postings of `ps` that belong to none of the documents in `ids`, in order.
pub open spec fn without_docs(ps: Seq<Posting>, ids: Set<usize>) -> Seq<Posting>
    decreases ps.len(),
{
    if ps.len() == 0 {
        Seq::empty()
    } else {
        let prev = without_docs(ps.drop_last(), ids);
        if ids.contains(ps.last().document_id) {
            prev
        } else {
            prev.push(ps.last())
        }
    }
}

pub proof fn lemma_without_docs_insert(ps: Seq<Posting>, ids: Set<usize>, id: usize)
    ensures
        without_doc(without_docs(ps, ids), id) == without_docs(ps, ids.insert(id)),
    decreases ps.len(),
{
    if ps.len() > 0 {
        lemma_without_docs_insert(ps.drop_last(), ids, id);
        let prev = without_docs(ps.drop_last(), ids);
        if !ids.contains(ps.last().document_id) {
            assert(prev.push(ps.last()).drop_last() =~= prev);
        }
    }
}

pub proof fn lemma_without_docs_empty(ps: Seq<Posting>)
    ensures
        without_docs(ps, Set::empty()) == ps,
    decreases ps.len(),
{
    if ps.len() > 0 {
        lemma_without_docs_empty(ps.drop_last());
        assert(ps.drop_last().push(ps.last()) =~= ps);
    }
}

/// The smallest id that `m` maps to path `p`, if there is one.
pub open spec fn first_with_path(m: Map<usize, Seq<char>>, p: Seq<char>) -> Option<usize> {
    if exists|id: usize| #[trigger] m.contains_key(id) && m[id] == p {
        Some(choose|id: usize| #[trigger] m.contains_key(id) && m[id] == p
            && forall|j: usize| j < id && #[trigger] m.contains_key(j) ==> m[j] != p)
    } else {
        None
    }
}

pub proof fn lemma_first_with_path(m: Map<usize, Seq<char>>, p: Seq<char>, id: usize)
    requires
        m.contains_key(id),
        m[id] == p,
        forall|j: usize| j < id && #[trigger] m.contains_key(j) ==> m[j] != p,
    ensures
        first_with_path(m, p) == Some(id),
{
    let c = choose|c: usize| #[trigger] m.contains_key(c) && m[c] == p
        && forall|j: usize| j < c && #[trigger] m.contains_key(j) ==> m[j] != p;
    assert(m.contains_key(c) && m[c] == p);
    if c < id {
        assert(m[c] != p);
    }
    if id < c {
        assert(m[id] != p);
    }
}

/// Terms with their postings, and the registry of documents.
pub struct InvertedIndex {
    /// Each term with its posting list; no term occurs twice.
    pub index: Vec<(String, Vec<Posting>)>,
    pub document_registry: HashMap<usize, String>,
    pub document_metadata: HashMap<usize, DocumentMetadata>,
    pub deleted_documents: HashSet<usize>,
    pub next_document_id: usize,
}

impl InvertedIndex {
    /// The id the next registered document receives.
    pub open spec fn next_id(self) -> usize {
        self.next_document_id
    }

    pub open spec fn terms_unique(self) -> bool {
        forall|i: int, j: int|
            0 <= i < self.index@.len() && 0 <= j < self.index@.len() && i != j
                ==> #[trigger] self.index@[i].0@ != #[trigger] self.index@[j].0@
    }

    pub open spec fn has_term(self, t: Seq<char>) -> bool {
        exists|i: int| 0 <= i < self.index@.len() && #[trigger] self.index@[i].0@ == t
    }

    pub open spec fn slot_of(self, t: Seq<char>) -> int {
        choose|i: int| 0 <= i < self.index@.len() && #[trigger] self.index@[i].0@ == t
    }

    /// The posting list of a term; empty for a term never indexed.
    pub open spec fn postings_for(self, t: Seq<char>) -> Seq<Posting> {
        if self.has_term(t) {
            self.index@[self.slot_of(t)].1@
        } else {
            Seq::empty()
        }
    }

    /// The ids of the documents whose postings mention `t`.
    pub open spec fn docs_with_term(self, t: Seq<char>) -> Set<usize> {
        Set::new(|id: usize| exists|k: int| 0 <= k < self.postings_for(t).len()
            && #[trigger] self.postings_for(t)[k].document_id == id)
    }

    /// The source path of each registered document.
    pub open spec fn paths(self) -> Map<usize, Seq<char>> {
        self.document_registry@.map_values(|s: String| s@)
    }

    /// The source kind of each registered document.
    pub open spec fn kinds(self) -> Map<usize, DocumentSourceKind> {
        self.document_metadata@.map_values(|m: DocumentMetadata| m.source_kind)
    }

    /// The ids marked deleted.
    pub open spec fn deleted(self) -> Set<usize> {
        self.deleted_documents@
    }

    pub open spec fn wf(self) -> bool {
        &&& self.terms_unique()
        &&& self.document_metadata@.dom() == self.document_registry@.dom()
        &&& forall|id: usize| #[trigger] self.document_registry@.contains_key(id) ==> {
            &&& id < self.next_id()
            &&& self.document_metadata@[id].source_id@ == self.document_registry@[id]@
        }
    }

    pub proof fn lemma_slot(self, i: int)
        requires
            self.terms_unique(),
            0 <= i < self.index@.len(),
        ensures
            self.has_term(self.index@[i].0@),
            self.slot_of(self.index@[i].0@) == i,
            self.postings_for(self.index@[i].0@) == self.index@[i].1@,
    {
        let t = self.index@[i].0@;
        assert(self.index@[i].0@ == t);
        let j = self.slot_of(t);
        assert(0 <= j < self.index@.len() && self.index@[j].0@ == t);
    }

    /// An empty index.
    pub fn new() -> (r: Self)
        ensures
            r.wf(),
            r.index@.len() == 0,
            r.paths() == Map::<usize, Seq<char>>::empty(),
            r.kinds() == Map::<usize, DocumentSourceKind>::empty(),
            r.deleted() == Set::<usize>::empty(),
            r.next_id() == 0,
    {
        let r = InvertedIndex {
            index: Vec::new(),
            document_registry: HashMap::new(),
            document_metadata: HashMap::new(),
            deleted_documents: HashSet::new(),
            next_document_id: 0,
        };
        proof {
            assert(r.paths() =~= Map::<usize, Seq<char>>::empty());
            assert(r.kinds() =~= Map::<usize, DocumentSourceKind>::empty());
        }
        r
    }

    /// Gives the next document id to `path` and records where it came from.
    pub fn register_document(&mut self, path: &str, source_kind: DocumentSourceKind) -> (doc_id: usize)
        requires
            old(self).wf(),
            old(self).next_id() < usize::MAX,
        ensures
            final(self).wf(),
            doc_id == old(self).next_id(),
            final(self).next_id() == old(self).next_id() + 1,
            final(self).paths() == old(self).paths().insert(doc_id, path@),
            final(self).kinds() == old(self).kinds().insert(doc_id, source_kind),
            final(self).index@ == old(self).index@,
            final(self).deleted() == old(self).deleted(),
    {
        let doc_id = self.next_document_id;
        let p1 = path.to_owned();
        let p2 = path.to_owned();
        self.document_registry.insert(doc_id, p1);
        self.document_metadata.insert(doc_id, DocumentMetadata { source_id: p2, source_kind });
        self.next_document_id = self.next_document_id + 1;
        proof {
            assert(self.paths() =~= old(self).paths().insert(doc_id, path@));
            assert(self.kinds() =~= old(self).kinds().insert(doc_id, source_kind));
        }
        doc_id
    }

    /// The slot of `term` in the term list, if it has one.
    pub fn find_term(&self, term: &String) -> (r: Option<usize>)
        requires
            self.terms_unique(),
        ensures
            match r {
                Some(i) => i < self.index@.len() && self.index@[i as int].0@ == term@,
                None => !self.has_term(term@),
            },
    {
        let mut i: usize = 0;
        while i < self.index.len()
            invariant
                i <= self.index@.len(),
                forall|k: int| 0 <= k < i ==> #[trigger] self.index@[k].0@ != term@,
            decreases self.index@.len() - i,
        {
            if self.index[i].0 == *term {
                return Some(i);
            }
            i = i + 1;
        }
        None
    }

    /// Distinct tokens of `tokens` in order of first occurrence, with how
    /// often each occurs.
    fn count_terms(tokens: &Vec<String>) -> (counts: Vec<(String, usize)>)
        ensures
            forall|i: int, j: int|
                0 <= i < counts@.len() && 0 <= j < counts@.len() && i != j
                    ==> #[trigger] counts@[i].0@ != #[trigger] counts@[j].0@,
            forall|i: int| 0 <= i < counts@.len()
                ==> views_of(tokens@).contains(#[trigger] counts@[i].0@)
                    && counts@[i].1 == occurrences(views_of(tokens@), counts@[i].0@),
            forall|t: Seq<char>| views_of(tokens@).contains(t)
                ==> exists|i: int| 0 <= i < counts@.len() && #[trigger] counts@[i].0@ == t,
    {
        let mut counts: Vec<(String, usize)> = Vec::new();
        let mut n: usize = 0;
        while n < tokens.len()
            invariant
                n <= tokens@.len(),
                forall|i: int, j: int|
                    0 <= i < counts@.len() && 0 <= j < counts@.len() && i != j
                        ==> #[trigger] counts@[i].0@ != #[trigger] counts@[j].0@,
                forall|i: int| 0 <= i < counts@.len()
                    ==> views_of(tokens@).take(n as int).contains(#[trigger] counts@[i].0@)
                        && counts@[i].1 == occurrences(views_of(tokens@).take(n as int), counts@[i].0@),
                forall|t: Seq<char>| views_of(tokens@).take(n as int).contains(t)
                    ==> exists|i: int| 0 <= i < counts@.len() && #[trigger] counts@[i].0@ == t,
            decreases tokens@.len() - n,
        {
            let ghost before = views_of(tokens@).take(n as int);
            let ghost after = views_of(tokens@).take(n + 1);
            let tok = &tokens[n];
            proof {
                assert(after.drop_last() =~= before);
                assert(after.last() == tok@);
                assert forall|t: Seq<char>| #[trigger] after.contains(t) implies before.contains(t) || t == tok@ by {
                    let k = choose|k: int| 0 <= k < after.len() && after[k] == t;
                    if k < n {
                        assert(before[k] == t);
                    }
                }
                assert forall|t: Seq<char>| #[trigger] before.contains(t) implies after.contains(t) by {
                    let k = choose|k: int| 0 <= k < before.len() && before[k] == t;
                    assert(after[k] == t);
                }
                assert(after.contains(tok@)) by {
                    assert(after[n as int] == tok@);
                }
                lemma_occurrences_bound(before, tok@);
                assert(before.len() == n);
            }
            let mut i: usize = 0;
            while i < counts.len() && !(counts[i].0 == *tok)
                invariant
                    i <= counts@.len(),
                    forall|k: int| 0 <= k < i ==> #[trigger] counts@[k].0@ != tok@,
                decreases counts@.len() - i,
            {
                i = i + 1;
            }
            if i < counts.len() {
                let ghost c0 = counts@;
                let entry_count = counts[i].1;
                let name = counts[i].0.clone();
                counts.set(i, (name, entry_count + 1));
                proof {
                    assert forall|k: int| 0 <= k < counts@.len() implies
                        #[trigger] counts@[k].0@ == c0[k].0@ by {}
                    assert forall|t: Seq<char>| after.contains(t) implies
                        exists|k: int| 0 <= k < counts@.len() && #[trigger] counts@[k].0@ == t by {
                        if t == tok@ {
                            assert(counts@[i as int].0@ == t);
                        } else {
                            let k = choose|k: int| 0 <= k < c0.len() && #[trigger] c0[k].0@ == t;
                            assert(counts@[k].0@ == t);
                        }
                    }
                }
            } else {
                proof {
                    assert(!before.contains(tok@)) by {
                        if before.contains(tok@) {
                            let k = choose|k: int| 0 <= k < counts@.len() && #[trigger] counts@[k].0@ == tok@;
                        }
                    }
                }
                let name = tok.clone();
                let ghost c0 = counts@;
                counts.push((name, 1));
                proof {
                    assert forall|t: Seq<char>| after.contains(t) implies
                        exists|k: int| 0 <= k < counts@.len() && #[trigger] counts@[k].0@ == t by {
                        if t == tok@ {
                            assert(counts@[c0.len() as int].0@ == t);
                        } else {
                            let k = choose|k: int| 0 <= k < c0.len() && #[trigger] c0[k].0@ == t;
                            assert(counts@[k].0@ == t);
                        }
                    }
                }
            }
            n = n + 1;
        }
        proof {
            assert(views_of(tokens@).take(tokens@.len() as int) =~= views_of(tokens@));
        }
        counts
    }

    /// The posting list a term has after a document with `tokens` is added.
    pub open spec fn postings_after_add(self, doc_id: usize, tokens: Seq<Seq<char>>, t: Seq<char>) -> Seq<Posting> {
        if tokens.contains(t) {
            self.postings_for(t).push(Posting { document_id: doc_id, frequency: occurrences(tokens, t) as usize })
        } else {
            self.postings_for(t)
        }
    }

    /// Appends one posting per distinct term of `tokens` for document `doc_id`,
    /// recording how often the term occurs.
    pub fn add_document(&mut self, doc_id: usize, tokens: Vec<String>)
        requires
            old(self).wf(),
        ensures
            final(self).wf(),
            forall|t: Seq<char>| #[trigger] final(self).has_term(t)
                == (old(self).has_term(t) || views_of(tokens@).contains(t)),
            forall|t: Seq<char>| #[trigger] final(self).postings_for(t)
                == old(self).postings_after_add(doc_id, views_of(tokens@), t),
            final(self).paths() == old(self).paths(),
            final(self).kinds() == old(self).kinds(),
            final(self).deleted() == old(self).deleted(),
            final(self).next_id() == old(self).next_id(),
    {
        let counts = Self::count_terms(&tokens);
        let ghost toks = views_of(tokens@);
        proof {
            assert forall|k: int| 0 <= k < counts@.len() implies #[trigger] counts@[k].1 as nat
                == occurrences(toks, counts@[k].0@) by {
                lemma_occurrences_bound(toks, counts@[k].0@);
            }
        }
        let mut j: usize = 0;
        while j < counts.len()
            invariant
                j <= counts@.len(),
                self.terms_unique(),
                self.document_registry == old(self).document_registry,
                self.document_metadata == old(self).document_metadata,
                self.deleted_documents == old(self).deleted_documents,
                self.next_document_id == old(self).next_document_id,
                forall|a: int, b: int|
                    0 <= a < counts@.len() && 0 <= b < counts@.len() && a != b
                        ==> #[trigger] counts@[a].0@ != #[trigger] counts@[b].0@,
                forall|k: int| 0 <= k < counts@.len()
                    ==> toks.contains(#[trigger] counts@[k].0@)
                        && counts@[k].1 == occurrences(toks, counts@[k].0@),
                forall|t: Seq<char>| toks.contains(t)
                    ==> exists|k: int| 0 <= k < counts@.len() && #[trigger] counts@[k].0@ == t,
                forall|k: int| 0 <= k < j ==> {
                    &&& self.has_term(#[trigger] counts@[k].0@)
                    &&& self.postings_for(counts@[k].0@) == old(self).postings_for(counts@[k].0@).push(
                        Posting { document_id: doc_id, frequency: counts@[k].1 })
                },
                forall|t: Seq<char>| (forall|k: int| 0 <= k < j ==> #[trigger] counts@[k].0@ != t) ==> {
                    &&& self.has_term(t) == old(self).has_term(t)
                    &&& self.postings_for(t) == old(self).postings_for(t)
                },
            decreases counts@.len() - j,
        {
            let posting = Posting { document_id: doc_id, frequency: counts[j].1 };
            let ghost term = counts@[j as int].0@;
            let ghost pre = *self;
            match self.find_term(&counts[j].0) {
                Some(i) => {
                    self.index[i].1.push(posting);
                    proof {
                        Self::lemma_update_slot(pre, *self, i as int, posting);
                    }
                },
                None => {
                    let mut fresh: Vec<Posting> = Vec::new();
                    fresh.push(posting);
                    let name = counts[j].0.clone();
                    self.index.push((name, fresh));
                    proof {
                        assert(self.index@.drop_last() =~= pre.index@);
                        assert(self.index@.last().1@ =~= seq![posting]);
                        Self::lemma_push_slot(pre, *self, term, posting);
                    }
                },
            }
            proof {
                assert forall|k: int| 0 <= k < j + 1 implies {
                    &&& self.has_term(#[trigger] counts@[k].0@)
                    &&& self.postings_for(counts@[k].0@) == old(self).postings_for(counts@[k].0@).push(
                        Posting { document_id: doc_id, frequency: counts@[k].1 })
                } by {
                    if k < j {
                        assert(counts@[k].0@ != term);
                    } else {
                        assert(forall|m: int| 0 <= m < j ==> #[trigger] counts@[m].0@ != term);
                    }
                }
                assert forall|t: Seq<char>| (forall|k: int| 0 <= k < j + 1 ==> #[trigger] counts@[k].0@ != t) implies {
                    &&& self.has_term(t) == old(self).has_term(t)
                    &&& self.postings_for(t) == old(self).postings_for(t)
                } by {
                    assert(counts@[j as int].0@ != t);
                    assert(forall|k: int| 0 <= k < j ==> #[trigger] counts@[k].0@ != t);
                }
            }
            j = j + 1;
        }
        proof {
            assert forall|t: Seq<char>| #[trigger] self.has_term(t)
                == (old(self).has_term(t) || toks.contains(t)) by {
                if toks.contains(t) {
                    let k = choose|k: int| 0 <= k < counts@.len() && #[trigger] counts@[k].0@ == t;
                } else {
                    assert forall|k: int| 0 <= k < counts@.len() implies #[trigger] counts@[k].0@ != t by {}
                }
            }
            assert forall|t: Seq<char>| #[trigger] self.postings_for(t)
                == old(self).postings_after_add(doc_id, toks, t) by {
                if toks.contains(t) {
                    let k = choose|k: int| 0 <= k < counts@.len() && #[trigger] counts@[k].0@ == t;
                } else {
                    assert forall|k: int| 0 <= k < counts@.len() implies #[trigger] counts@[k].0@ != t by {}
                }
            }
        }
    }

    /// Appending a posting at the slot of `pre.index@[i]` changes only that
    /// term's list.
    proof fn lemma_update_slot(pre: Self, post: Self, i: int, p: Posting)
        requires
            pre.terms_unique(),
            0 <= i < pre.index@.len(),
            post.index@.len() == pre.index@.len(),
            forall|k: int| 0 <= k < pre.index@.len() && k != i ==> post.index@[k] == pre.index@[k],
            post.index@[i].0@ == pre.index@[i].0@,
            post.index@[i].1@ == pre.index@[i].1@.push(p),
        ensures
            post.terms_unique(),
            forall|t: Seq<char>| #[trigger] post.has_term(t) == pre.has_term(t),
            forall|t: Seq<char>| #[trigger] post.postings_for(t) == if t == pre.index@[i].0@ {
                pre.postings_for(t).push(p)
            } else {
                pre.postings_for(t)
            },
    {
        assert forall|a: int, b: int|
            0 <= a < post.index@.len() && 0 <= b < post.index@.len() && a != b
                implies #[trigger] post.index@[a].0@ != #[trigger] post.index@[b].0@ by {
            assert(post.index@[a].0@ == pre.index@[a].0@);
            assert(post.index@[b].0@ == pre.index@[b].0@);
        }
        assert forall|t: Seq<char>| #[trigger] post.has_term(t) == pre.has_term(t) by {
            if pre.has_term(t) {
                let k = pre.slot_of(t);
                assert(post.index@[k].0@ == t);
            }
            if post.has_term(t) {
                let k = post.slot_of(t);
                assert(pre.index@[k].0@ == t);
            }
        }
        assert forall|t: Seq<char>| #[trigger] post.postings_for(t) == if t == pre.index@[i].0@ {
            pre.postings_for(t).push(p)
        } else {
            pre.postings_for(t)
        } by {
            if pre.has_term(t) {
                let k = pre.slot_of(t);
                pre.lemma_slot(k);
                post.lemma_slot(k);
                if k == i {
                    assert(post.index@[k].1@ == pre.index@[k].1@.push(p));
                } else {
                    assert(post.index@[k] == pre.index@[k]);
                }
            }
        }
    }

    /// Adding a new term at the end gives it a one-posting list and changes
    /// nothing else.
    proof fn lemma_push_slot(pre: Self, post: Self, term: Seq<char>, p: Posting)
        requires
            pre.terms_unique(),
            !pre.has_term(term),
            post.index@.len() == pre.index@.len() + 1,
            post.index@.drop_last() == pre.index@,
            post.index@.last().0@ == term,
            post.index@.last().1@ == seq![p],
        ensures
            post.terms_unique(),
            forall|t: Seq<char>| #[trigger] post.has_term(t) == (pre.has_term(t) || t == term),
            forall|t: Seq<char>| #[trigger] post.postings_for(t) == if t == term {
                pre.postings_for(t).push(p)
            } else {
                pre.postings_for(t)
            },
    {
        let n = pre.index@.len() as int;
        assert forall|k: int| 0 <= k < n implies #[trigger] post.index@[k] == pre.index@[k] by {
            assert(post.index@.drop_last()[k] == post.index@[k]);
        }
        assert forall|a: int, b: int|
            0 <= a < post.index@.len() && 0 <= b < post.index@.len() && a != b
                implies #[trigger] post.index@[a].0@ != #[trigger] post.index@[b].0@ by {
            if a < n && b < n {
            } else if a == n {
                assert(post.index@[b] == pre.index@[b]);
                if pre.index@[b].0@ == term {
                    assert(pre.has_term(term));
                }
            } else {
                assert(post.index@[a] == pre.index@[a]);
                if pre.index@[a].0@ == term {
                    assert(pre.has_term(term));
                }
            }
        }
        assert forall|t: Seq<char>| #[trigger] post.has_term(t) == (pre.has_term(t) || t == term) by {
            if pre.has_term(t) {
                let k = pre.slot_of(t);
                assert(post.index@[k].0@ == t);
            }
            if t == term {
                assert(post.index@[n].0@ == t);
            }
            if post.has_term(t) && t != term {
                let k = post.slot_of(t);
                assert(k != n);
                assert(pre.index@[k].0@ == t);
            }
        }
        assert forall|t: Seq<char>| #[trigger] post.postings_for(t) == if t == term {
            pre.postings_for(t).push(p)
        } else {
            pre.postings_for(t)
        } by {
            if t == term {
                post.lemma_slot(n);
                assert(pre.postings_for(t) == Seq::<Posting>::empty());
                assert(seq![p] =~= Seq::<Posting>::empty().push(p));
            } else if pre.has_term(t) {
                let k = pre.slot_of(t);
                pre.lemma_slot(k);
                post.lemma_slot(k);
            } else {
                assert(!post.has_term(t));
            }
        }
    }

    fn postings_without(ps: &Vec<Posting>, doc_id: usize) -> (r: Vec<Posting>)
        ensures
            r@ == without_doc(ps@, doc_id),
    {
        let mut r: Vec<Posting> = Vec::new();
        let mut i: usize = 0;
        while i < ps.len()
            invariant
                i <= ps@.len(),
                r@ == without_doc(ps@.take(i as int), doc_id),
            decreases ps@.len() - i,
        {
            proof {
                assert(ps@.take(i + 1).drop_last() =~= ps@.take(i as int));
            }
            if ps[i].document_id != doc_id {
                r.push(ps[i]);
            }
            i = i + 1;
        }
        proof {
            assert(ps@.take(ps@.len() as int) =~= ps@);
        }
        r
    }

    /// Marks `doc_id` deleted, forgets its source and drops its postings from
    /// every term.
    pub fn delete_document(&mut self, doc_id: usize)
        requires
            old(self).wf(),
        ensures
            final(self).wf(),
            forall|t: Seq<char>| #[trigger] final(self).has_term(t) == old(self).has_term(t),
            forall|t: Seq<char>| #[trigger] final(self).postings_for(t)
                == without_doc(old(self).postings_for(t), doc_id),
            final(self).paths() == old(self).paths().remove(doc_id),
            final(self).kinds() == old(self).kinds().remove(doc_id),
            final(self).deleted() == old(self).deleted().insert(doc_id),
            final(self).next_id() == old(self).next_id(),
    {
        self.deleted_documents.insert(doc_id);
        self.document_registry.remove(&doc_id);
        self.document_metadata.remove(&doc_id);
        let mut i: usize = 0;
        while i < self.index.len()
            invariant
                i <= self.index@.len(),
                self.index@.len() == old(self).index@.len(),
                forall|k: int| 0 <= k < self.index@.len() ==> #[trigger] self.index@[k].0@ == old(self).index@[k].0@,
                forall|k: int| 0 <= k < i ==> #[trigger] self.index@[k].1@ == without_doc(old(self).index@[k].1@, doc_id),
                forall|k: int| i <= k < self.index@.len() ==> #[trigger] self.index@[k].1@ == old(self).index@[k].1@,
                self.document_registry@ == old(self).document_registry@.remove(doc_id),
                self.document_metadata@ == old(self).document_metadata@.remove(doc_id),
                self.deleted_documents@ == old(self).deleted_documents@.insert(doc_id),
                self.next_document_id == old(self).next_document_id,
                old(self).terms_unique(),
            decreases self.index@.len() - i,
        {
            let kept = Self::postings_without(&self.index[i].1, doc_id);
            self.index[i].1 = kept;
            i = i + 1;
        }
        proof {
            assert(self.terms_unique()) by {
                assert forall|a: int, b: int|
                    0 <= a < self.index@.len() && 0 <= b < self.index@.len() && a != b
                        implies #[trigger] self.index@[a].0@ != #[trigger] self.index@[b].0@ by {
                    assert(old(self).index@[a].0@ != old(self).index@[b].0@);
                }
            }
            assert forall|t: Seq<char>| #[trigger] self.has_term(t) == old(self).has_term(t) by {
                if old(self).has_term(t) {
                    let k = old(self).slot_of(t);
                    assert(self.index@[k].0@ == t);
                }
                if self.has_term(t) {
                    let k = self.slot_of(t);
                    assert(old(self).index@[k].0@ == t);
                }
            }
            assert forall|t: Seq<char>| #[trigger] self.postings_for(t)
                == without_doc(old(self).postings_for(t), doc_id) by {
                if old(self).has_term(t) {
                    let k = old(self).slot_of(t);
                    old(self).lemma_slot(k);
                    self.lemma_slot(k);
                } else {
                    assert(!self.has_term(t));
                    assert(without_doc(Seq::<Posting>::empty(), doc_id) == Seq::<Posting>::empty());
                }
            }
            assert(self.paths() =~= old(self).paths().remove(doc_id));
            assert(self.kinds() =~= old(self).kinds().remove(doc_id));
        }
    }

    /// The smallest registered id whose source path is `path`, if any.
    pub fn find_document_by_path(&self, path: &str) -> (r: Option<usize>)
        requires
            self.wf(),
        ensures
            r == first_with_path(self.paths(), path@),
            match r {
                Some(id) => {
                    &&& self.paths().contains_key(id)
                    &&& self.paths()[id] == path@
                    &&& forall|j: usize| j < id && #[trigger] self.paths().contains_key(j) ==> self.paths()[j] != path@
                },
                None => forall|j: usize| #[trigger] self.paths().contains_key(j) ==> self.paths()[j] != path@,
            },
    {
        let mut id: usize = 0;
        while id < self.next_document_id
            invariant
                id <= self.next_id(),
                self.wf(),
                forall|j: usize| j < id && #[trigger] self.paths().contains_key(j) ==> self.paths()[j] != path@,
            decreases self.next_id() - id,
        {
            match self.document_registry.get(&id) {
                Some(stored) => {
                    if same_text(stored.as_str(), path) {
                        proof {
                            lemma_first_with_path(self.paths(), path@, id);
                        }
                        return Some(id);
                    }
                },
                None => {},
            }
            id = id + 1;
        }
        proof {
            assert forall|j: usize| #[trigger] self.paths().contains_key(j) implies self.paths()[j] != path@ by {
                assert(self.document_registry@.contains_key(j));
            }
        }
        None
    }

    /// Whether some posting of `term` belongs to document `doc_id`.
    pub fn term_has_document(&self, term: &String, doc_id: usize) -> (r: bool)
        requires
            self.terms_unique(),
        ensures
            r == self.docs_with_term(term@).contains(doc_id),
    {
        match self.find_term(term) {
            None => false,
            Some(i) => {
                proof {
                    self.lemma_slot(i as int);
                }
                let ps = &self.index[i].1;
                let mut k: usize = 0;
                while k < ps.len()
                    invariant
                        k <= ps@.len(),
                        ps@ == self.postings_for(term@),
                        forall|m: int| 0 <= m < k ==> #[trigger] ps@[m].document_id != doc_id,
                    decreases ps@.len() - k,
                {
                    if ps[k].document_id == doc_id {
                        return true;
                    }
                    k = k + 1;
                }
                false
            },
        }
    }

    /// `post` is `pre` with the documents in `ids` deleted: their sources
    /// forgotten, their ids marked deleted, their postings dropped.
    pub open spec fn removed(pre: Self, post: Self, ids: Set<usize>) -> bool {
        &&& post.wf()
        &&& forall|t: Seq<char>| #[trigger] post.has_term(t) == pre.has_term(t)
        &&& forall|t: Seq<char>| #[trigger] post.postings_for(t) == without_docs(pre.postings_for(t), ids)
        &&& post.paths() == pre.paths().remove_keys(ids)
        &&& post.kinds() == pre.kinds().remove_keys(ids)
        &&& post.deleted() == pre.deleted().union(ids)
        &&& post.next_id() == pre.next_id()
    }

    pub proof fn lemma_removed_nothing(pre: Self)
        requires
            pre.wf(),
        ensures
            Self::removed(pre, pre, Set::empty()),
    {
        assert forall|t: Seq<char>| #[trigger] pre.postings_for(t) == without_docs(pre.postings_for(t), Set::empty()) by {
            lemma_without_docs_empty(pre.postings_for(t));
        }
        assert(pre.paths().remove_keys(Set::empty()) =~= pre.paths());
        assert(pre.kinds().remove_keys(Set::empty()) =~= pre.kinds());
        assert(pre.deleted().union(Set::empty()) =~= pre.deleted());
    }

    /// Deleting one more document extends a removal by its id.
    pub proof fn lemma_removed_step(a: Self, b: Self, c: Self, ids: Set<usize>, id: usize)
        requires
            Self::removed(a, b, ids),
            c.wf(),
            forall|t: Seq<char>| #[trigger] c.has_term(t) == b.has_term(t),
            forall|t: Seq<char>| #[trigger] c.postings_for(t) == without_doc(b.postings_for(t), id),
            c.paths() == b.paths().remove(id),
            c.kinds() == b.kinds().remove(id),
            c.deleted() == b.deleted().insert(id),
            c.next_id() == b.next_id(),
        ensures
            Self::removed(a, c, ids.insert(id)),
    {
        assert forall|t: Seq<char>| #[trigger] c.postings_for(t) == without_docs(a.postings_for(t), ids.insert(id)) by {
            lemma_without_docs_insert(a.postings_for(t), ids, id);
        }
        assert(c.paths() =~= a.paths().remove_keys(ids.insert(id)));
        assert(c.kinds() =~= a.kinds().remove_keys(ids.insert(id)));
        assert(c.deleted() =~= a.deleted().union(ids.insert(id)));
    }
}

} // verus!
