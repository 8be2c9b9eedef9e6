//! An immutable segment built from the documents of a memtable: for each
//! lower-cased, whitespace-separated word, the ids of the documents it
//! occurs in, once per occurrence.

use vstd::prelude::*;
use crate::text::{chars_of, lowercase_of, runs, split_runs, to_lowercase, views_of, TokenClass};

verus! {

/// A word with the ids of the documents it occurs in.
pub type DictionaryEntry = (String, Vec<u32>);

/// Words and the documents they occur in, plus how many documents the
/// segment was built from.
#[derive(Debug)]
pub struct Segment {
    pub dictionary: Vec<DictionaryEntry>,
    pub total_docs: usize,
}

/// The words of a document's text.
pub open spec fn segment_tokens(content: Seq<char>) -> Seq<Seq<char>> {
    runs(lowercase_of(content), TokenClass::NonWhitespace)
}

/// The documents as ids with their text.
pub open spec fn documents_view(data: Seq<(u32, String)>) -> Seq<(u32, Seq<char>)> {
    data.map_values(|d: (u32, String)| (d.0, d.1@))
}

/// Each word of a document paired with its id, in order.
pub open spec fn doc_pairs(id: u32, tokens: Seq<Seq<char>>) -> Seq<(u32, Seq<char>)> {
    tokens.map_values(|t: Seq<char>| (id, t))
}

/// Each word of each document paired with the document's id, in order.
pub open spec fn all_pairs(docs: Seq<(u32, Seq<char>)>) -> Seq<(u32, Seq<char>)>
    decreases docs.len(),
{
    if docs.len() == 0 {
        Seq::empty()
    } else {
        all_pairs(docs.drop_last()) + doc_pairs(docs.last().0, segment_tokens(docs.last().1))
    }
}

/// The ids paired with word `w`, in order.
pub open spec fn ids_for(pairs: Seq<(u32, Seq<char>)>, w: Seq<char>) -> Seq<u32>
    decreases pairs.len(),
{
    if pairs.len() == 0 {
        Seq::empty()
    } else {
        let prev = ids_for(pairs.drop_last(), w);
        if pairs.last().1 == w {
            prev.push(pairs.last().0)
        } else {
            prev
        }
    }
}

/// No word has two entries.
pub open spec fn words_unique(d: Seq<DictionaryEntry>) -> bool {
    forall|i: int, j: int| 0 <= i < d.len() && 0 <= j < d.len() && i != j
        ==> #[trigger] d[i].0@ != #[trigger] d[j].0@
}

/// `d` lists exactly the words paired in `pairs`, each with its ids.
pub open spec fn indexes_pairs(d: Seq<DictionaryEntry>, pairs: Seq<(u32, Seq<char>)>) -> bool {
    &&& words_unique(d)
    &&& forall|i: int| 0 <= i < d.len() ==> #[trigger] d[i].1@ == ids_for(pairs, d[i].0@)
    &&& forall|i: int| 0 <= i < d.len() ==> ids_for(pairs, #[trigger] d[i].0@).len() > 0
    &&& forall|w: Seq<char>| #[trigger] ids_for(pairs, w).len() > 0
        ==> exists|i: int| 0 <= i < d.len() && #[trigger] d[i].0@ == w
}

proof fn lemma_ids_for_push(pairs: Seq<(u32, Seq<char>)>, p: (u32, Seq<char>), w: Seq<char>)
    ensures
        ids_for(pairs.push(p), w) == if p.1 == w { ids_for(pairs, w).push(p.0) } else { ids_for(pairs, w) },
{
    assert(pairs.push(p).drop_last() =~= pairs);
}

/// The slot of `word` in `d`, if it has one.
fn find_word(d: &Vec<DictionaryEntry>, word: &String) -> (r: Option<usize>)
    ensures
        match r {
            Some(i) => i < d@.len() && d@[i as int].0@ == word@,
            None => forall|i: int| 0 <= i < d@.len() ==> #[trigger] d@[i].0@ != word@,
        },
{
    let mut i: usize = 0;
    while i < d.len()
        invariant
            i <= d@.len(),
            forall|k: int| 0 <= k < i ==> #[trigger] d@[k].0@ != word@,
        decreases d@.len() - i,
    {
        if d[i].0 == *word {
            return Some(i);
        }
        i = i + 1;
    }
    None
}

/// Records one occurrence of `word` in document `id`.
fn add_occurrence(d: &mut Vec<DictionaryEntry>, word: String, id: u32, Ghost(pairs): Ghost<Seq<(u32, Seq<char>)>>)
    requires
        indexes_pairs(old(d)@, pairs),
    ensures
        indexes_pairs(final(d)@, pairs.push((id, word@))),
{
    let ghost next = pairs.push((id, word@));
    proof {
        assert forall|w: Seq<char>| #[trigger] ids_for(next, w)
            == if w == word@ { ids_for(pairs, w).push(id) } else { ids_for(pairs, w) } by {
            lemma_ids_for_push(pairs, (id, word@), w);
        }
    }
    match find_word(d, &word) {
        Some(i) => {
            let ghost before = d@;
            let mut entry = d.remove(i);
            entry.1.push(id);
            d.insert(i, entry);
            proof {
                assert forall|k: int| 0 <= k < d@.len() implies #[trigger] d@[k] == (if k == i { d@[k] } else { before[k] }) by {}
                assert forall|k: int| 0 <= k < d@.len() && k != i implies #[trigger] d@[k].0@ == before[k].0@ by {
                    assert(d@[k] == before[k]);
                }
                assert(d@[i as int].0@ == word@);
                assert forall|w: Seq<char>| #[trigger] ids_for(next, w).len() > 0
                    implies exists|k: int| 0 <= k < d@.len() && #[trigger] d@[k].0@ == w by {
                    if w == word@ {
                        assert(d@[i as int].0@ == w);
                    } else {
                        let k = choose|k: int| 0 <= k < before.len() && #[trigger] before[k].0@ == w;
                        assert(d@[k] == before[k]);
                    }
                }
            }
        },
        None => {
            let mut ids: Vec<u32> = Vec::new();
            ids.push(id);
            let ghost before = d@;
            d.push((word, ids));
            proof {
                assert(ids@ =~= ids_for(pairs, word@).push(id)) by {
                    if ids_for(pairs, word@).len() > 0 {
                        let k = choose|k: int| 0 <= k < before.len() && #[trigger] before[k].0@ == word@;
                        assert(false);
                    }
                }
                assert forall|k: int| 0 <= k < d@.len() - 1 implies #[trigger] d@[k] == before[k] by {}
                assert forall|w: Seq<char>| #[trigger] ids_for(next, w).len() > 0
                    implies exists|k: int| 0 <= k < d@.len() && #[trigger] d@[k].0@ == w by {
                    if w == word@ {
                        assert(d@[before.len() as int].0@ == w);
                    } else {
                        let k = choose|k: int| 0 <= k < before.len() && #[trigger] before[k].0@ == w;
                        assert(d@[k] == before[k]);
                    }
                }
            }
        },
    }
}

impl Segment {
    /// The ids recorded for `w`, if the segment has the word.
    pub open spec fn word_ids(self, w: Seq<char>) -> Option<Seq<u32>> {
        if exists|i: int| 0 <= i < self.dictionary@.len() && #[trigger] self.dictionary@[i].0@ == w {
            let i = choose|i: int| 0 <= i < self.dictionary@.len() && #[trigger] self.dictionary@[i].0@ == w;
            Some(self.dictionary@[i].1@)
        } else {
            None
        }
    }

    /// Builds the segment of a memtable's documents.
    pub fn build(memtable_data: &[(u32, String)]) -> (s: Segment)
        ensures
            s.total_docs == memtable_data@.len(),
            words_unique(s.dictionary@),
            forall|w: Seq<char>| #[trigger] s.word_ids(w)
                == if ids_for(all_pairs(documents_view(memtable_data@)), w).len() > 0 {
                    Some(ids_for(all_pairs(documents_view(memtable_data@)), w))
                } else {
                    None
                },
    {
        let mut dictionary: Vec<DictionaryEntry> = Vec::new();
        let ghost docs = documents_view(memtable_data@);
        let mut i: usize = 0;
        while i < memtable_data.len()
            invariant
                i <= memtable_data@.len(),
                docs == documents_view(memtable_data@),
                indexes_pairs(dictionary@, all_pairs(docs.take(i as int))),
            decreases memtable_data@.len() - i,
        {
            let id = memtable_data[i].0;
            let words = to_lowercase(memtable_data[i].1.as_str());
            let chars = chars_of(words.as_str());
            let tokens = split_runs(chars.as_slice(), TokenClass::NonWhitespace);
            let ghost base = all_pairs(docs.take(i as int));
            let ghost toks = views_of(tokens@);
            proof {
                assert(toks == segment_tokens(docs[i as int].1));
                assert(base + doc_pairs(id, toks.take(0)) =~= base);
            }
            let mut j: usize = 0;
            while j < tokens.len()
                invariant
                    j <= tokens@.len(),
                    toks == views_of(tokens@),
                    indexes_pairs(dictionary@, base + doc_pairs(id, toks.take(j as int))),
                decreases tokens@.len() - j,
            {
                let word = tokens[j].clone();
                proof {
                    assert(base + doc_pairs(id, toks.take(j + 1))
                        =~= (base + doc_pairs(id, toks.take(j as int))).push((id, word@)));
                }
                add_occurrence(&mut dictionary, word, id, Ghost(base + doc_pairs(id, toks.take(j as int))));
                j = j + 1;
            }
            proof {
                assert(toks.take(toks.len() as int) =~= toks);
                assert(docs.take(i + 1).drop_last() =~= docs.take(i as int));
                assert(docs.take(i + 1).last() == docs[i as int]);
            }
            i = i + 1;
        }
        proof {
            assert(docs.take(docs.len() as int) =~= docs);
        }
        let s = Segment { dictionary, total_docs: memtable_data.len() };
        proof {
            let pairs = all_pairs(docs);
            assert forall|w: Seq<char>| #[trigger] s.word_ids(w)
                == if ids_for(pairs, w).len() > 0 { Some(ids_for(pairs, w)) } else { None } by {
                if exists|k: int| 0 <= k < s.dictionary@.len() && #[trigger] s.dictionary@[k].0@ == w {
                    let k = choose|k: int| 0 <= k < s.dictionary@.len() && #[trigger] s.dictionary@[k].0@ == w;
                    assert(s.dictionary@[k].1@ == ids_for(pairs, s.dictionary@[k].0@));
                }
            }
        }
        s
    }

    /// The ids recorded for `word`, if the segment has it.
    pub fn lookup(&self, word: &String) -> (r: Option<Vec<u32>>)
        requires
            words_unique(self.dictionary@),
        ensures
            match r {
                Some(v) => self.word_ids(word@) == Some(v@),
                None => self.word_ids(word@) is None,
            },
    {
        match find_word(&self.dictionary, word) {
            Some(i) => {
                proof {
                    let k = choose|k: int| 0 <= k < self.dictionary@.len() && #[trigger] self.dictionary@[k].0@ == word@;
                    if k != i {
                        assert(self.dictionary@[k].0@ != self.dictionary@[i as int].0@);
                    }
                }
                Some(self.dictionary[i].1.clone())
            },
            None => None,
        }
    }
}

} // verus!
