//! Conjunctive search, the documents that contain every term of a query,
//! and the term statistics and document lengths a ranking reads.

use vstd::prelude::*;
use std::collections::HashSet;
use crate::analyzer::{analysis, TextAnalyzer};
use crate::index::{InvertedIndex, Posting};
use crate::text::views_of;

verus! {

broadcast use vstd::std_specs::hash::group_hash_axioms;

/// Whether document `id` has a posting under every one of `terms`.
pub open spec fn has_all_terms(index: InvertedIndex, terms: Seq<Seq<char>>, id: usize) -> bool {
    forall|k: int| 0 <= k < terms.len() ==> #[trigger] index.docs_with_term(terms[k]).contains(id)
}

/// The documents a conjunctive query over `terms` finds: registered, not
/// deleted, and holding every term. An empty query finds nothing.
pub open spec fn conjunctive_hits(index: InvertedIndex, terms: Seq<Seq<char>>) -> Set<usize> {
    if terms.len() == 0 {
        Set::empty()
    } else {
        Set::new(|id: usize| has_all_terms(index, terms, id)
            && !index.deleted().contains(id)
            && index.paths().contains_key(id))
    }
}

/// `paths` is the list of source paths of exactly the documents in `hits`,
/// each once, in some order.
pub open spec fn lists_paths_of(index: InvertedIndex, hits: Set<usize>, paths: Seq<Seq<char>>) -> bool {
    exists|ids: Seq<usize>| {
        &&& ids.no_duplicates()
        &&& ids.to_set() == hits
        &&& paths == ids.map_values(|id: usize| index.paths()[id])
    }
}

/// The postings of `ps` a partition's ranking reads: those of documents not
/// deleted whose id falls into partition `shard_id` of `shard_count`, in
/// order.
pub open spec fn partition_postings(ps: Seq<Posting>, deleted: Set<usize>, shard_id: usize, shard_count: usize) -> Seq<Posting>
    decreases ps.len(),
{
    if ps.len() == 0 {
        Seq::empty()
    } else {
        let prev = partition_postings(ps.drop_last(), deleted, shard_id, shard_count);
        let p = ps.last();
        if !deleted.contains(p.document_id) && p.document_id as nat % shard_count as nat == shard_id as nat {
            prev.push(p)
        } else {
            prev
        }
    }
}

/// For each of `terms` the index holds, in order (a repeated term once per
/// occurrence): the length of its posting list, and its postings in the
/// partition.
pub open spec fn statistics_of_terms(index: InvertedIndex, terms: Seq<Seq<char>>, shard_id: usize, shard_count: usize)
    -> Seq<(nat, Seq<Posting>)>
    decreases terms.len(),
{
    if terms.len() == 0 {
        Seq::empty()
    } else {
        let prev = statistics_of_terms(index, terms.drop_last(), shard_id, shard_count);
        let t = terms.last();
        if index.has_term(t) {
            prev.push((index.postings_for(t).len(),
                partition_postings(index.postings_for(t), index.deleted(), shard_id, shard_count)))
        } else {
            prev
        }
    }
}

/// The summed frequencies of the postings of `ps` that name document `id`.
pub open spec fn frequency_in(ps: Seq<Posting>, id: usize) -> nat
    decreases ps.len(),
{
    if ps.len() == 0 {
        0
    } else {
        frequency_in(ps.drop_last(), id) + if ps.last().document_id == id { ps.last().frequency as nat } else { 0 }
    }
}

/// The length of document `id` as the posting lists tell it: its term
/// frequencies summed over every term.
pub open spec fn length_in(lists: Seq<(String, Vec<Posting>)>, id: usize) -> nat
    decreases lists.len(),
{
    if lists.len() == 0 {
        0
    } else {
        length_in(lists.drop_last(), id) + frequency_in(lists.last().1@, id)
    }
}

/// Whether some posting list names document `id`.
pub open spec fn listed_in(lists: Seq<(String, Vec<Posting>)>, id: usize) -> bool {
    exists|i: int, k: int| 0 <= i < lists.len() && 0 <= k < lists[i].1@.len() && #[trigger] lists[i].1@[k].document_id == id
}

proof fn lemma_frequency_prefix(ps: Seq<Posting>, id: usize, j: int)
    requires
        0 <= j <= ps.len(),
    ensures
        frequency_in(ps.take(j), id) <= frequency_in(ps, id),
    decreases ps.len(),
{
    if j == ps.len() {
        assert(ps.take(j) =~= ps);
    } else {
        lemma_frequency_prefix(ps.drop_last(), id, j);
        assert(ps.drop_last().take(j) =~= ps.take(j));
    }
}

proof fn lemma_length_prefix(lists: Seq<(String, Vec<Posting>)>, id: usize, i: int)
    requires
        0 <= i <= lists.len(),
    ensures
        length_in(lists.take(i), id) <= length_in(lists, id),
    decreases lists.len(),
{
    if i == lists.len() {
        assert(lists.take(i) =~= lists);
    } else {
        lemma_length_prefix(lists.drop_last(), id, i);
        assert(lists.drop_last().take(i) =~= lists.take(i));
    }
}

/// What ranking one query term in one partition reads: how many documents
/// the term's posting list names, and the term's postings in the partition.
pub struct TermStatistics {
    pub document_frequency: usize,
    pub postings: Vec<Posting>,
}

/// The plain values of a list of term statistics.
pub open spec fn statistics_view(s: Seq<TermStatistics>) -> Seq<(nat, Seq<Posting>)> {
    s.map_values(|x: TermStatistics| (x.document_frequency as nat, x.postings@))
}

/// A search over an index with an analyzer.
pub struct SearchEngine<'a> {
    index: &'a InvertedIndex,
    analyzer: &'a TextAnalyzer,
}

impl<'a> SearchEngine<'a> {
    /// The index this searcher reads.
    pub closed spec fn searched_index(self) -> InvertedIndex {
        *self.index
    }

    pub fn new(index: &'a InvertedIndex, analyzer: &'a TextAnalyzer) -> (r: Self)
        ensures
            r.searched_index() == *index,
    {
        SearchEngine { index, analyzer }
    }

    /// The source paths of the documents that contain every term of the
    /// analyzed query, each once.
    pub fn search(&self, raw_query: &str) -> (paths: Vec<String>)
        requires
            self.searched_index().wf(),
        ensures
            lists_paths_of(self.searched_index(), conjunctive_hits(self.searched_index(), analysis(raw_query@)),
                views_of(paths@)),
    {
        let index = self.index;
        let query_tokens = self.analyzer.analyze(raw_query);
        let ghost terms = analysis(raw_query@);
        if query_tokens.len() == 0 {
            let empty: Vec<String> = Vec::new();
            proof {
                let ids = Seq::<usize>::empty();
                assert(ids.to_set() =~= conjunctive_hits(*index, terms));
                assert(views_of(empty@) =~= ids.map_values(|id: usize| index.paths()[id]));
            }
            return empty;
        }
        let first = &query_tokens[0];
        let slot = match index.find_term(first) {
            Some(i) => i,
            None => {
                let empty: Vec<String> = Vec::new();
                proof {
                    let ids = Seq::<usize>::empty();
                    assert(terms[0] == first@);
                    assert(ids.to_set() =~= conjunctive_hits(*index, terms)) by {
                        assert forall|id: usize| !conjunctive_hits(*index, terms).contains(id) by {
                            assert(!index.docs_with_term(terms[0]).contains(id));
                        }
                    }
                    assert(views_of(empty@) =~= ids.map_values(|id: usize| index.paths()[id]));
                }
                return empty;
            },
        };
        proof {
            index.lemma_slot(slot as int);
        }
        let first_postings = &index.index[slot].1;
        let mut found: Vec<String> = Vec::new();
        let mut seen: HashSet<usize> = HashSet::new();
        let ghost mut ids: Seq<usize> = Seq::empty();
        let mut p: usize = 0;
        while p < first_postings.len()
            invariant
                p <= first_postings@.len(),
                index.wf(),
                first_postings@ == index.postings_for(terms[0]),
                terms.len() > 0,
                views_of(query_tokens@) == terms,
                ids.no_duplicates(),
                seen@ == ids.to_set(),
                forall|k: int| 0 <= k < ids.len() ==> conjunctive_hits(*index, terms).contains(#[trigger] ids[k]),
                forall|k: int| 0 <= k < p ==> conjunctive_hits(*index, terms).contains(#[trigger] first_postings@[k].document_id)
                    ==> ids.contains(first_postings@[k].document_id),
                views_of(found@) == ids.map_values(|id: usize| index.paths()[id]),
            decreases first_postings@.len() - p,
        {
            let id = first_postings[p].document_id;
            let ghost ids_start = ids;
            if !seen.contains(&id) && !index.deleted_documents.contains(&id) {
                let mut all = true;
                let mut t: usize = 1;
                while t < query_tokens.len()
                    invariant
                        1 <= t <= query_tokens@.len(),
                        index.wf(),
                        views_of(query_tokens@) == terms,
                        all ==> forall|k: int| 0 <= k < t ==> #[trigger] index.docs_with_term(terms[k]).contains(id),
                        !all ==> !has_all_terms(*index, terms, id),
                        first_postings@ == index.postings_for(terms[0]),
                        first_postings@[p as int].document_id == id,
                        p < first_postings@.len(),
                    decreases query_tokens@.len() - t,
                {
                    if all && !index.term_has_document(&query_tokens[t], id) {
                        all = false;
                        proof {
                            assert(terms[t as int] == query_tokens@[t as int]@);
                        }
                    }
                    t = t + 1;
                }
                if all {
                    match index.document_registry.get(&id) {
                        Some(path) => {
                            let ghost f0 = found@;
                            let ghost ids0 = ids;
                            let ghost seen0 = seen@;
                            let copied = path.clone();
                            found.push(copied);
                            seen.insert(id);
                            proof {
                                assert(!seen0.contains(id));
                                assert(!ids0.contains(id));
                                assert(index.document_registry@.contains_key(id));
                                assert(index.paths()[id] == copied@);
                                assert(has_all_terms(*index, terms, id));
                                assert(conjunctive_hits(*index, terms).contains(id));
                                ids = ids0.push(id);
                                assert(views_of(found@) =~= views_of(f0).push(copied@));
                                assert(ids.map_values(|i: usize| index.paths()[i])
                                    =~= ids0.map_values(|i: usize| index.paths()[i]).push(index.paths()[id]));
                                assert forall|x: usize| #[trigger] ids.to_set().contains(x) == seen@.contains(x) by {
                                    if ids0.contains(x) {
                                        let k = choose|k: int| 0 <= k < ids0.len() && ids0[k] == x;
                                        assert(ids[k] == x);
                                    }
                                    if ids.contains(x) && x != id {
                                        let k = choose|k: int| 0 <= k < ids.len() && ids[k] == x;
                                        assert(ids0[k] == x);
                                    }
                                    assert(ids[ids0.len() as int] == id);
                                }
                                assert(ids.to_set() =~= seen@);
                            }
                        },
                        None => {},
                    }
                }
            }
            proof {
                assert(forall|x: usize| ids_start.contains(x) ==> ids.contains(x)) by {
                    assert forall|x: usize| ids_start.contains(x) implies ids.contains(x) by {
                        let k = choose|k: int| 0 <= k < ids_start.len() && ids_start[k] == x;
                        assert(ids[k] == x);
                    }
                }
                if conjunctive_hits(*index, terms).contains(id) {
                    assert(ids.to_set().contains(id));
                }
            }
            p = p + 1;
        }
        proof {
            let hits = conjunctive_hits(*index, terms);
            assert(ids.to_set() =~= hits) by {
                assert forall|id: usize| hits.contains(id) implies ids.to_set().contains(id) by {
                    assert(index.docs_with_term(terms[0]).contains(id));
                    let k = choose|k: int| 0 <= k < first_postings@.len() && #[trigger] first_postings@[k].document_id == id;
                }
                assert forall|id: usize| ids.to_set().contains(id) implies hits.contains(id) by {
                    let k = choose|k: int| 0 <= k < ids.len() && ids[k] == id;
                }
            }
        }
        found
    }

    /// What ranking the query in partition `shard_id` of `shard_count`
    /// reads: for each analyzed query term the index holds, in query order,
    /// its posting-list length and its postings of live documents in the
    /// partition. Nothing when the index registers no document.
    pub fn term_statistics(&self, raw_query: &str, shard_id: usize, shard_count: usize) -> (r: Vec<TermStatistics>)
        requires
            self.searched_index().wf(),
            shard_count > 0,
        ensures
            statistics_view(r@) == if self.searched_index().paths().len() == 0 {
                Seq::<(nat, Seq<Posting>)>::empty()
            } else {
                statistics_of_terms(self.searched_index(), analysis(raw_query@), shard_id, shard_count)
            },
    {
        let index = self.index;
        let mut stats: Vec<TermStatistics> = Vec::new();
        if index.document_registry.len() == 0 {
            proof {
                assert(index.paths().dom() =~= index.document_registry@.dom());
                assert(statistics_view(stats@) =~= Seq::<(nat, Seq<Posting>)>::empty());
            }
            return stats;
        }
        proof {
            assert(index.paths().dom() =~= index.document_registry@.dom());
        }
        let query_tokens = self.analyzer.analyze(raw_query);
        let ghost terms = analysis(raw_query@);
        let mut i: usize = 0;
        while i < query_tokens.len()
            invariant
                i <= query_tokens@.len(),
                index.wf(),
                shard_count > 0,
                views_of(query_tokens@) == terms,
                statistics_view(stats@) == statistics_of_terms(*index, terms.take(i as int), shard_id, shard_count),
            decreases query_tokens@.len() - i,
        {
            proof {
                assert(terms.take(i + 1).drop_last() =~= terms.take(i as int));
                assert(terms.take(i + 1).last() == query_tokens@[i as int]@);
            }
            match index.find_term(&query_tokens[i]) {
                Some(slot) => {
                    proof {
                        index.lemma_slot(slot as int);
                    }
                    let postings = &index.index[slot].1;
                    let ghost ps = postings@;
                    let mut kept: Vec<Posting> = Vec::new();
                    let mut j: usize = 0;
                    while j < postings.len()
                        invariant
                            j <= ps.len(),
                            ps == postings@,
                            shard_count > 0,
                            kept@ == partition_postings(ps.take(j as int), index.deleted(), shard_id, shard_count),
                        decreases ps.len() - j,
                    {
                        proof {
                            assert(ps.take(j + 1).drop_last() =~= ps.take(j as int));
                            assert(ps.take(j + 1).last() == ps[j as int]);
                        }
                        let posting = postings[j];
                        if !index.deleted_documents.contains(&posting.document_id)
                            && posting.document_id % shard_count == shard_id {
                            kept.push(posting);
                        }
                        j = j + 1;
                    }
                    proof {
                        assert(ps.take(ps.len() as int) =~= ps);
                    }
                    let ghost s0 = stats@;
                    stats.push(TermStatistics { document_frequency: postings.len(), postings: kept });
                    proof {
                        assert(statistics_view(stats@) =~= statistics_view(s0).push(
                            (ps.len() as nat, partition_postings(ps, index.deleted(), shard_id, shard_count))));
                    }
                },
                None => {},
            }
            i = i + 1;
        }
        proof {
            assert(terms.take(query_tokens@.len() as int) =~= terms);
        }
        stats
    }

    /// The length of document `doc_id` that ranking reads: its term
    /// frequencies summed over every posting list; `None` when no posting
    /// names it.
    pub fn document_length(&self, doc_id: usize) -> (r: Option<u64>)
        requires
            length_in(self.searched_index().index@, doc_id) <= u64::MAX,
        ensures
            r == if listed_in(self.searched_index().index@, doc_id) {
                Some(length_in(self.searched_index().index@, doc_id) as u64)
            } else {
                None::<u64>
            },
    {
        let lists = &self.index.index;
        let ghost all = lists@;
        let mut total: u64 = 0;
        let mut listed = false;
        let mut i: usize = 0;
        while i < lists.len()
            invariant
                i <= all.len(),
                all == lists@,
                length_in(all, doc_id) <= u64::MAX,
                total == length_in(all.take(i as int), doc_id),
                listed == listed_in(all.take(i as int), doc_id),
            decreases all.len() - i,
        {
            proof {
                assert(all.take(i + 1).drop_last() =~= all.take(i as int));
                lemma_length_prefix(all, doc_id, i + 1);
            }
            let postings = &lists[i].1;
            let ghost ps = postings@;
            let ghost before = total;
            let mut j: usize = 0;
            while j < postings.len()
                invariant
                    j <= ps.len(),
                    ps == postings@,
                    ps == all[i as int].1@,
                    before + frequency_in(ps, doc_id) <= u64::MAX,
                    total == before + frequency_in(ps.take(j as int), doc_id),
                    listed == (listed_in(all.take(i as int), doc_id)
                        || exists|k: int| 0 <= k < j && #[trigger] ps[k].document_id == doc_id),
                decreases ps.len() - j,
            {
                proof {
                    assert(ps.take(j + 1).drop_last() =~= ps.take(j as int));
                    lemma_frequency_prefix(ps, doc_id, j + 1);
                }
                if postings[j].document_id == doc_id {
                    total = total + postings[j].frequency as u64;
                    listed = true;
                }
                j = j + 1;
            }
            proof {
                assert(ps.take(ps.len() as int) =~= ps);
                let next = all.take(i + 1);
                assert(next[i as int] == all[i as int]);
                assert(listed_in(next, doc_id) == (listed_in(all.take(i as int), doc_id)
                    || exists|k: int| 0 <= k < ps.len() && #[trigger] ps[k].document_id == doc_id)) by {
                    if listed_in(next, doc_id) {
                        let (a, k) = choose|a: int, k: int| 0 <= a < next.len() && 0 <= k < next[a].1@.len()
                            && #[trigger] next[a].1@[k].document_id == doc_id;
                        if a < i {
                            assert(all.take(i as int)[a].1@[k].document_id == doc_id);
                        } else {
                            assert(ps[k].document_id == doc_id);
                        }
                    }
                    if listed_in(all.take(i as int), doc_id) {
                        let (a, k) = choose|a: int, k: int| 0 <= a < i && 0 <= k < all.take(i as int)[a].1@.len()
                            && #[trigger] all.take(i as int)[a].1@[k].document_id == doc_id;
                        assert(next[a].1@[k].document_id == doc_id);
                    }
                    if exists|k: int| 0 <= k < ps.len() && #[trigger] ps[k].document_id == doc_id {
                        let k = choose|k: int| 0 <= k < ps.len() && #[trigger] ps[k].document_id == doc_id;
                        assert(next[i as int].1@[k].document_id == doc_id);
                    }
                }
            }
            i = i + 1;
        }
        proof {
            assert(all.take(all.len() as int) =~= all);
        }
        if listed {
            Some(total)
        } else {
            None
        }
    }
}

} // verus!
