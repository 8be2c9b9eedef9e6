//! Boolean retrieval: clauses that a document must, should or must not
//! match, combined over the document sets their words fetch.

use vstd::prelude::*;
use std::collections::HashSet;

verus! {

broadcast use vstd::std_specs::hash::group_hash_axioms;

/// How a clause takes part in a boolean query.
#[derive(Debug, PartialEq, Eq, Structural, Clone, Copy)]
pub enum Operator {
    Must,
    Should,
    MustNot,
}

/// One word of a boolean query with its operator.
#[derive(Debug)]
pub struct QueryClause {
    pub operator: Operator,
    pub word: String,
}

/// A boolean query: its clauses, in order.
pub struct BooleanQuery {
    pub clauses: Vec<QueryClause>,
}

/// The operators of `clauses`, in order.
pub open spec fn operators_of(clauses: Seq<QueryClause>) -> Seq<Operator> {
    clauses.map_values(|c: QueryClause| c.operator)
}

/// One of the first `n` clauses has operator `op`.
pub open spec fn has_operator(ops: Seq<Operator>, op: Operator, n: int) -> bool {
    exists|i: int| 0 <= i < n && #[trigger] ops[i] == op
}

/// Every `Must` set among the first `n` contains `d`.
pub open spec fn in_every_must(ops: Seq<Operator>, sets: Seq<Set<u32>>, n: int, d: u32) -> bool {
    forall|k: int| 0 <= k < n && #[trigger] ops[k] == Operator::Must ==> sets[k].contains(d)
}

/// Some set with operator `op` among the first `n` contains `d`.
pub open spec fn in_some(ops: Seq<Operator>, sets: Seq<Set<u32>>, op: Operator, n: int, d: u32) -> bool {
    exists|k: int| 0 <= k < n && #[trigger] ops[k] == op && sets[k].contains(d)
}

/// Whether document `d` answers a query whose clauses have operators `ops`
/// and fetched `sets`: where any clause is `Must`, it is in every `Must`
/// set, else in some `Should` set; and it is in no `MustNot` set.
pub open spec fn answers(ops: Seq<Operator>, sets: Seq<Set<u32>>, d: u32) -> bool {
    &&& if has_operator(ops, Operator::Must, ops.len() as int) {
        in_every_must(ops, sets, ops.len() as int, d)
    } else {
        in_some(ops, sets, Operator::Should, ops.len() as int, d)
    }
    &&& !in_some(ops, sets, Operator::MustNot, ops.len() as int, d)
}

/// The documents that answer the query.
pub open spec fn combined(ops: Seq<Operator>, sets: Seq<Set<u32>>) -> Set<u32> {
    Set::new(|d: u32| answers(ops, sets, d))
}

/// `out` is a possible result of `fetch` on a string whose characters are `w`.
pub open spec fn fetched<F: Fn(&str) -> HashSet<u32>>(fetch: F, w: Seq<char>, out: Set<u32>) -> bool {
    exists|a: &str, r: HashSet<u32>| a@ == w && r@ == out && call_ensures(fetch, (a,), r)
}

/// The views of a sequence of sets.
pub open spec fn set_views(v: Seq<HashSet<u32>>) -> Seq<Set<u32>> {
    v.map_values(|s: HashSet<u32>| s@)
}

/// The elements of `b` that are also in `m`.
fn intersect_sets(b: &HashSet<u32>, m: &HashSet<u32>) -> (r: HashSet<u32>)
    ensures
        r@ == b@.intersect(m@),
{
    let mut r: HashSet<u32> = HashSet::new();
    for x in it: b.iter()
        invariant
            it.seq().unref().to_set() == b@,
            r@ == it.seq().unref().take(it.index() as int).to_set().intersect(m@),
            it.index() == it.seq().len() ==> r@ == b@.intersect(m@),
    {
        let ghost n = it.index() as int;
        if m.contains(x) {
            r.insert(*x);
        }
        proof {
            assert(it.seq().unref().take(n + 1) =~= it.seq().unref().take(n).push(*x));
            it.seq().unref().take(n).lemma_push_to_set_commute(*x);
            assert(r@ =~= it.seq().unref().take(n + 1).to_set().intersect(m@));
            assert(it.seq().unref().take(it.seq().len() as int) =~= it.seq().unref());
        }
    }
    r
}

/// Adds the elements of `src` to `dst`.
fn extend_set(dst: &mut HashSet<u32>, src: &HashSet<u32>)
    ensures
        final(dst)@ == old(dst)@.union(src@),
{
    for x in it: src.iter()
        invariant
            it.seq().unref().to_set() == src@,
            dst@ == old(dst)@.union(it.seq().unref().take(it.index() as int).to_set()),
            it.index() == it.seq().len() ==> dst@ == old(dst)@.union(src@),
    {
        let ghost n = it.index() as int;
        dst.insert(*x);
        proof {
            assert(it.seq().unref().take(n + 1) =~= it.seq().unref().take(n).push(*x));
            it.seq().unref().take(n).lemma_push_to_set_commute(*x);
            assert(dst@ =~= old(dst)@.union(it.seq().unref().take(n + 1).to_set()));
            assert(it.seq().unref().take(it.seq().len() as int) =~= it.seq().unref());
        }
    }
}

/// Removes the elements of `src` from `dst`.
fn remove_all(dst: &mut HashSet<u32>, src: &HashSet<u32>)
    ensures
        final(dst)@ == old(dst)@.difference(src@),
{
    for x in it: src.iter()
        invariant
            it.seq().unref().to_set() == src@,
            dst@ == old(dst)@.difference(it.seq().unref().take(it.index() as int).to_set()),
            it.index() == it.seq().len() ==> dst@ == old(dst)@.difference(src@),
    {
        let ghost n = it.index() as int;
        dst.remove(x);
        proof {
            assert(it.seq().unref().take(n + 1) =~= it.seq().unref().take(n).push(*x));
            it.seq().unref().take(n).lemma_push_to_set_commute(*x);
            assert(dst@ =~= old(dst)@.difference(it.seq().unref().take(n + 1).to_set()));
            assert(it.seq().unref().take(it.seq().len() as int) =~= it.seq().unref());
        }
    }
}

/// Combines the document sets fetched for each clause (`results[i]` for
/// `clauses[i]`) into the documents that answer the query.
pub fn combine_clause_results(clauses: &Vec<QueryClause>, results: &Vec<HashSet<u32>>) -> (r: HashSet<u32>)
    requires
        results.len() == clauses.len(),
    ensures
        r@ == combined(operators_of(clauses@), set_views(results@)),
{
    let ghost ops = operators_of(clauses@);
    let ghost sets = set_views(results@);
    let mut must_bucket: Option<HashSet<u32>> = None;
    let mut should_bucket: HashSet<u32> = HashSet::new();
    let mut must_not_bucket: HashSet<u32> = HashSet::new();
    let mut i: usize = 0;
    while i < clauses.len()
        invariant
            i <= clauses.len(),
            results.len() == clauses.len(),
            ops == operators_of(clauses@),
            sets == set_views(results@),
            (must_bucket is Some) == has_operator(ops, Operator::Must, i as int),
            must_bucket matches Some(b) ==> b@ == Set::new(|d: u32| in_every_must(ops, sets, i as int, d)),
            should_bucket@ == Set::new(|d: u32| in_some(ops, sets, Operator::Should, i as int, d)),
            must_not_bucket@ == Set::new(|d: u32| in_some(ops, sets, Operator::MustNot, i as int, d)),
        decreases clauses.len() - i,
    {
        let matching = &results[i];
        proof {
            assert(ops[i as int] == clauses@[i as int].operator);
            assert(sets[i as int] == results@[i as int]@);
        }
        match clauses[i].operator {
            Operator::Must => {
                match must_bucket {
                    None => {
                        let mut first: HashSet<u32> = HashSet::new();
                        extend_set(&mut first, matching);
                        proof {
                            assert forall|d: u32| first@.contains(d) == in_every_must(ops, sets, i + 1, d) by {
                                if first@.contains(d) {
                                    assert forall|k: int| 0 <= k < i + 1 && #[trigger] ops[k] == Operator::Must
                                        implies sets[k].contains(d) by {
                                        if k < i {
                                            assert(has_operator(ops, Operator::Must, i as int));
                                        }
                                    }
                                }
                            }
                            assert(first@ =~= Set::new(|d: u32| in_every_must(ops, sets, i + 1, d)));
                        }
                        must_bucket = Some(first);
                    },
                    Some(b) => {
                        let narrowed = intersect_sets(&b, matching);
                        proof {
                            assert forall|d: u32| narrowed@.contains(d) == in_every_must(ops, sets, i + 1, d) by {
                                if in_every_must(ops, sets, i + 1, d) {
                                    assert(in_every_must(ops, sets, i as int, d));
                                    assert(b@.contains(d));
                                }
                                if narrowed@.contains(d) {
                                    assert(b@.contains(d));
                                    assert(in_every_must(ops, sets, i as int, d));
                                }
                            }
                            assert(narrowed@ =~= Set::new(|d: u32| in_every_must(ops, sets, i + 1, d)));
                        }
                        must_bucket = Some(narrowed);
                    },
                }
                proof {
                    assert(has_operator(ops, Operator::Must, i + 1));
                    assert forall|d: u32| in_some(ops, sets, Operator::Should, i + 1, d)
                        == in_some(ops, sets, Operator::Should, i as int, d) by {}
                    assert forall|d: u32| in_some(ops, sets, Operator::MustNot, i + 1, d)
                        == in_some(ops, sets, Operator::MustNot, i as int, d) by {}
                    assert(should_bucket@ =~= Set::new(|d: u32| in_some(ops, sets, Operator::Should, i + 1, d)));
                    assert(must_not_bucket@ =~= Set::new(|d: u32| in_some(ops, sets, Operator::MustNot, i + 1, d)));
                }
            },
            Operator::Should => {
                extend_set(&mut should_bucket, matching);
                proof {
                    assert(has_operator(ops, Operator::Must, i + 1) == has_operator(ops, Operator::Must, i as int));
                    assert forall|d: u32| in_every_must(ops, sets, i + 1, d) == in_every_must(ops, sets, i as int, d) by {}
                    assert forall|d: u32| in_some(ops, sets, Operator::Should, i + 1, d)
                        == (in_some(ops, sets, Operator::Should, i as int, d) || sets[i as int].contains(d)) by {}
                    assert forall|d: u32| in_some(ops, sets, Operator::MustNot, i + 1, d)
                        == in_some(ops, sets, Operator::MustNot, i as int, d) by {}
                    assert(should_bucket@ =~= Set::new(|d: u32| in_some(ops, sets, Operator::Should, i + 1, d)));
                    assert(must_not_bucket@ =~= Set::new(|d: u32| in_some(ops, sets, Operator::MustNot, i + 1, d)));
                    if must_bucket is Some {
                        assert(must_bucket->0@ =~= Set::new(|d: u32| in_every_must(ops, sets, i + 1, d)));
                    }
                }
            },
            Operator::MustNot => {
                extend_set(&mut must_not_bucket, matching);
                proof {
                    assert(has_operator(ops, Operator::Must, i + 1) == has_operator(ops, Operator::Must, i as int));
                    assert forall|d: u32| in_every_must(ops, sets, i + 1, d) == in_every_must(ops, sets, i as int, d) by {}
                    assert forall|d: u32| in_some(ops, sets, Operator::Should, i + 1, d)
                        == in_some(ops, sets, Operator::Should, i as int, d) by {}
                    assert forall|d: u32| in_some(ops, sets, Operator::MustNot, i + 1, d)
                        == (in_some(ops, sets, Operator::MustNot, i as int, d) || sets[i as int].contains(d)) by {}
                    assert(should_bucket@ =~= Set::new(|d: u32| in_some(ops, sets, Operator::Should, i + 1, d)));
                    assert(must_not_bucket@ =~= Set::new(|d: u32| in_some(ops, sets, Operator::MustNot, i + 1, d)));
                    if must_bucket is Some {
                        assert(must_bucket->0@ =~= Set::new(|d: u32| in_every_must(ops, sets, i + 1, d)));
                    }
                }
            },
        }
        i = i + 1;
    }
    let mut final_results = match must_bucket {
        Some(must) => must,
        None => should_bucket,
    };
    remove_all(&mut final_results, &must_not_bucket);
    proof {
        assert(ops.len() == i);
        assert(final_results@ =~= combined(ops, sets));
    }
    final_results
}

impl BooleanQuery {
    /// Runs the query, fetching each clause's documents through
    /// `fetch_documents_for_word`, one call per clause, in order.
    pub fn execute<F: Fn(&str) -> HashSet<u32>>(&self, fetch_documents_for_word: F) -> (r: HashSet<u32>)
        requires
            forall|w: &str| call_requires(fetch_documents_for_word, (w,)),
        ensures
            exists|found: Seq<Set<u32>>| {
                &&& found.len() == self.clauses@.len()
                &&& forall|k: int| 0 <= k < found.len()
                    ==> fetched(fetch_documents_for_word, self.clauses@[k].word@, #[trigger] found[k])
                &&& r@ == combined(operators_of(self.clauses@), found)
            },
    {
        let mut results: Vec<HashSet<u32>> = Vec::new();
        let mut i: usize = 0;
        while i < self.clauses.len()
            invariant
                i <= self.clauses.len(),
                results@.len() == i,
                forall|w: &str| call_requires(fetch_documents_for_word, (w,)),
                forall|k: int| 0 <= k < i
                    ==> fetched(fetch_documents_for_word, self.clauses@[k].word@, #[trigger] set_views(results@)[k]),
            decreases self.clauses.len() - i,
        {
            let word = self.clauses[i].word.as_str();
            let matching = fetch_documents_for_word(word);
            proof {
                assert(fetched(fetch_documents_for_word, self.clauses@[i as int].word@, matching@));
            }
            let ghost prev = results@;
            results.push(matching);
            proof {
                assert forall|k: int| 0 <= k < i + 1
                    implies fetched(fetch_documents_for_word, self.clauses@[k].word@, #[trigger] set_views(results@)[k]) by {
                    if k < i {
                        assert(set_views(results@)[k] == set_views(prev)[k]);
                    }
                }
            }
            i = i + 1;
        }
        let r = combine_clause_results(&self.clauses, &results);
        proof {
            assert(set_views(results@).len() == self.clauses@.len());
        }
        r
    }
}

} // verus!
