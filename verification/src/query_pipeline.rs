//! What the query pipeline computes besides the scored search itself: how
//! a source is shown, how results are labelled, and how documents spread
//! over partitions.

use vstd::prelude::*;
use std::collections::HashMap;
use crate::paths::{file_name_of, parent_of, path_file_name, path_parent};
use crate::text::{chars_of, string_from_chars, strip_end};

verus! {

broadcast use vstd::std_specs::hash::group_hash_axioms;

/// `s` without the copies of `./` at its start.
pub open spec fn strip_dot_slash(s: Seq<char>) -> Seq<char>
    decreases s.len(),
{
    if s.len() >= 2 && s[0] == '.' && s[1] == '/' {
        strip_dot_slash(s.skip(2))
    } else {
        s
    }
}

/// `./` followed by `f`.
pub open spec fn dot_slash(f: Seq<char>) -> Seq<char> {
    seq!['.', '/'] + f
}

/// How a source is shown: its file name under its parent directory,
/// relative (`./` when the parent is empty or the current directory);
/// empty when there is no source or it has no file name.
pub open spec fn displayed(source: Option<Seq<char>>) -> Seq<char> {
    match source {
        None => Seq::empty(),
        Some(s) => match path_file_name(s) {
            None => Seq::empty(),
            Some(f) => match path_parent(s) {
                None => dot_slash(f),
                Some(p) => if p.len() == 0 || p == seq!['.'] {
                    dot_slash(f)
                } else {
                    let rel = strip_end(strip_dot_slash(p), '/');
                    if rel.len() == 0 {
                        dot_slash(f)
                    } else {
                        rel + seq!['/'] + f
                    }
                },
            },
        },
    }
}

fn prefixed_dot_slash(f: &str) -> (r: String)
    ensures
        r@ == dot_slash(f@),
{
    let fc = chars_of(f);
    let mut out: Vec<char> = Vec::new();
    out.push('.');
    out.push('/');
    let mut i: usize = 0;
    while i < fc.len()
        invariant
            i <= fc@.len(),
            out@ == seq!['.', '/'] + fc@.take(i as int),
        decreases fc@.len() - i,
    {
        out.push(fc[i]);
        proof {
            assert(fc@.take(i + 1) =~= fc@.take(i as int).push(fc@[i as int]));
            assert(out@ =~= seq!['.', '/'] + fc@.take(i + 1));
        }
        i = i + 1;
    }
    proof {
        assert(fc@.take(fc@.len() as int) =~= fc@);
    }
    string_from_chars(out.as_slice())
}

/// The parent directory as shown: without leading `./` and trailing `/`.
fn relative_parent(pc: &[char]) -> (r: Vec<char>)
    ensures
        r@ == strip_end(strip_dot_slash(pc@), '/'),
{
    let mut a: usize = 0;
    proof {
        assert(pc@.skip(0) =~= pc@);
    }
    while pc.len() - a >= 2 && pc[a] == '.' && pc[a + 1] == '/'
        invariant
            a <= pc@.len(),
            strip_dot_slash(pc@) == strip_dot_slash(pc@.skip(a as int)),
        decreases pc@.len() - a,
    {
        proof {
            assert(pc@.skip(a as int).skip(2) =~= pc@.skip(a + 2));
        }
        a = a + 2;
    }
    let ghost rest = pc@.skip(a as int);
    proof {
        assert(strip_dot_slash(pc@) == rest);
    }
    let mut b: usize = pc.len();
    proof {
        assert(pc@.subrange(a as int, b as int) =~= rest);
    }
    while b > a && pc[b - 1] == '/'
        invariant
            a <= b <= pc@.len(),
            rest == pc@.skip(a as int),
            strip_end(rest, '/') == strip_end(pc@.subrange(a as int, b as int), '/'),
        decreases b - a,
    {
        proof {
            assert(pc@.subrange(a as int, b as int).drop_last() =~= pc@.subrange(a as int, b - 1));
        }
        b = b - 1;
    }
    crate::text::copy_range(pc, a, b)
}

/// `dir`, a slash, then `f`.
fn joined(dir: Vec<char>, f: &str) -> (r: String)
    ensures
        r@ == dir@ + seq!['/'] + f@,
{
    let fc = chars_of(f);
    let mut out = dir;
    out.push('/');
    let ghost head = out@;
    let mut i: usize = 0;
    while i < fc.len()
        invariant
            i <= fc@.len(),
            out@ == head + fc@.take(i as int),
        decreases fc@.len() - i,
    {
        out.push(fc[i]);
        proof {
            assert(fc@.take(i + 1) =~= fc@.take(i as int).push(fc@[i as int]));
            assert(out@ =~= head + fc@.take(i + 1));
        }
        i = i + 1;
    }
    proof {
        assert(fc@.take(fc@.len() as int) =~= fc@);
        assert(out@ =~= dir@ + seq!['/'] + f@);
    }
    string_from_chars(out.as_slice())
}

/// The shown form of a document's source.
pub fn display_filename(source_id: Option<&str>) -> (r: String)
    ensures
        r@ == displayed(match source_id {
            Some(s) => Some(s@),
            None => None,
        }),
{
    let source_id = match source_id {
        Some(s) => s,
        None => return String::new(),
    };
    let filename = match file_name_of(source_id) {
        Some(f) => f,
        None => return String::new(),
    };
    let parent = match parent_of(source_id) {
        Some(p) => p,
        None => return prefixed_dot_slash(filename.as_str()),
    };
    let pc = chars_of(parent.as_str());
    if pc.len() == 0 || (pc.len() == 1 && pc[0] == '.') {
        proof {
            if pc@.len() == 1 {
                assert(pc@ =~= seq!['.']);
            }
        }
        return prefixed_dot_slash(filename.as_str());
    }
    proof {
        if pc@ == seq!['.'] {
            assert(pc@[0] == '.');
        }
    }
    let rel = relative_parent(pc.as_slice());
    if rel.len() == 0 {
        return prefixed_dot_slash(filename.as_str());
    }
    joined(rel, filename.as_str())
}

/// How many of `ids` fall into partition `r` of `n`.
pub open spec fn residue_count(ids: Seq<usize>, n: nat, r: usize) -> nat
    decreases ids.len(),
{
    if ids.len() == 0 {
        0
    } else {
        residue_count(ids.drop_last(), n, r) + if ids.last() as nat % n == r as nat { 1nat } else { 0nat }
    }
}

proof fn lemma_residue_count_bound(ids: Seq<usize>, n: nat, r: usize)
    ensures
        residue_count(ids, n, r) <= ids.len(),
    decreases ids.len(),
{
    if ids.len() > 0 {
        lemma_residue_count_bound(ids.drop_last(), n, r);
    }
}

/// The partition count used when none is given.
pub open spec fn effective_partitions(shard_count: usize) -> nat {
    if shard_count == 0 { 1 } else { shard_count as nat }
}

/// For each partition that receives a document, how many of `doc_ids` it
/// receives; a document goes to partition `doc_id % shard_count` (one
/// partition when `shard_count` is 0).
pub fn build_shard_counts_by_doc_id(doc_ids: &[usize], shard_count: usize) -> (counts: HashMap<usize, usize>)
    ensures
        forall|r: usize| #[trigger] counts@.contains_key(r)
            <==> residue_count(doc_ids@, effective_partitions(shard_count), r) > 0,
        forall|r: usize| #[trigger] counts@.contains_key(r)
            ==> counts@[r] == residue_count(doc_ids@, effective_partitions(shard_count), r),
{
    let n: usize = if shard_count == 0 { 1 } else { shard_count };
    let ghost np = effective_partitions(shard_count);
    let mut counts: HashMap<usize, usize> = HashMap::new();
    let mut i: usize = 0;
    while i < doc_ids.len()
        invariant
            i <= doc_ids@.len(),
            n as nat == np,
            np > 0,
            forall|r: usize| #[trigger] counts@.contains_key(r) <==> residue_count(doc_ids@.take(i as int), np, r) > 0,
            forall|r: usize| #[trigger] counts@.contains_key(r) ==> counts@[r] == residue_count(doc_ids@.take(i as int), np, r),
        decreases doc_ids@.len() - i,
    {
        let k: usize = doc_ids[i] % n;
        let ghost prefix = doc_ids@.take(i as int);
        let ghost next = doc_ids@.take(i + 1);
        proof {
            assert(next.drop_last() =~= prefix);
            assert(next.last() == doc_ids@[i as int]);
            lemma_residue_count_bound(prefix, np, k);
        }
        let current: usize = match counts.get(&k) {
            Some(c) => *c,
            None => 0,
        };
        counts.insert(k, current + 1);
        proof {
            assert forall|r: usize| #[trigger] counts@.contains_key(r) <==> residue_count(next, np, r) > 0 by {
                assert(residue_count(next, np, r) == residue_count(prefix, np, r) + if r == k { 1nat } else { 0nat });
            }
            assert forall|r: usize| #[trigger] counts@.contains_key(r) implies counts@[r] == residue_count(next, np, r) by {
                assert(residue_count(next, np, r) == residue_count(prefix, np, r) + if r == k { 1nat } else { 0nat });
            }
        }
        i = i + 1;
    }
    proof {
        assert(doc_ids@.take(doc_ids@.len() as int) =~= doc_ids@);
    }
    counts
}

/// Whether document `doc_id` belongs to partition `shard_id` of
/// `shard_count`: the one its id falls into, modulo the count.
pub fn in_partition(doc_id: usize, shard_id: usize, shard_count: usize) -> (r: bool)
    requires
        shard_count > 0,
    ensures
        r == (doc_id as nat % shard_count as nat == shard_id as nat),
{
    doc_id % shard_count == shard_id
}

} // verus!
