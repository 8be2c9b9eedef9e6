//! Phrase matching over the positions at which two words occur.

use vstd::prelude::*;

verus! {

/// The positions at which a word occurs in one document.
#[derive(Debug, Clone)]
pub struct PositionalPosting {
    pub doc_id: u32,
    pub positions: Vec<u32>,
}

/// `s` never decreases.
pub open spec fn ascending(s: Seq<u32>) -> bool {
    forall|i: int, j: int| 0 <= i <= j < s.len() ==> s[i] <= s[j]
}

/// Some position of the second word directly follows a position of the
/// first.
pub open spec fn adjacent_pair(first: Seq<u32>, second: Seq<u32>) -> bool {
    exists|i: int, j: int|
        0 <= i < first.len() && 0 <= j < second.len() && #[trigger] second[j] == #[trigger] first[i] + 1
}

/// The walk over both position lists from `i` and `j` on: stop at a
/// position of the second word right after one of the first, else advance
/// past the smaller position.
pub open spec fn phrase_scan(first: Seq<u32>, second: Seq<u32>, i: int, j: int) -> bool
    decreases first.len() + second.len() - i - j,
{
    if 0 <= i < first.len() && 0 <= j < second.len() {
        if second[j] == first[i] + 1 {
            true
        } else if first[i] < second[j] {
            phrase_scan(first, second, i + 1, j)
        } else {
            phrase_scan(first, second, i, j + 1)
        }
    } else {
        false
    }
}

proof fn lemma_scan_finds_pair(first: Seq<u32>, second: Seq<u32>, i: int, j: int)
    requires
        phrase_scan(first, second, i, j),
    ensures
        adjacent_pair(first, second),
    decreases first.len() + second.len() - i - j,
{
    if second[j] == first[i] + 1 {
        assert(second[j] == first[i] + 1);
    } else if first[i] < second[j] {
        lemma_scan_finds_pair(first, second, i + 1, j);
    } else {
        lemma_scan_finds_pair(first, second, i, j + 1);
    }
}

/// Whether the second word occurs right after the first somewhere, walking
/// both position lists in step. On ascending lists this finds every such
/// pair.
pub fn is_exact_phrase_match(word_one_addresses: &[u32], word_two_addresses: &[u32]) -> (r: bool)
    ensures
        r == phrase_scan(word_one_addresses@, word_two_addresses@, 0, 0),
        r ==> adjacent_pair(word_one_addresses@, word_two_addresses@),
        ascending(word_one_addresses@) && ascending(word_two_addresses@)
            ==> (r <==> adjacent_pair(word_one_addresses@, word_two_addresses@)),
{
    let ghost a = word_one_addresses@;
    let ghost b = word_two_addresses@;
    let mut pointer_one: usize = 0;
    let mut pointer_two: usize = 0;
    while pointer_one < word_one_addresses.len() && pointer_two < word_two_addresses.len()
        invariant
            a == word_one_addresses@,
            b == word_two_addresses@,
            pointer_one <= a.len(),
            pointer_two <= b.len(),
            phrase_scan(a, b, 0, 0) == phrase_scan(a, b, pointer_one as int, pointer_two as int),
            ascending(a) && ascending(b) ==> forall|i: int, j: int|
                0 <= i < a.len() && 0 <= j < b.len() && (i < pointer_one || j < pointer_two)
                    ==> #[trigger] b[j] != #[trigger] a[i] + 1,
        decreases a.len() - pointer_one + b.len() - pointer_two,
    {
        let pos_one = word_one_addresses[pointer_one];
        let pos_two = word_two_addresses[pointer_two];
        if pos_two > 0 && pos_two - 1 == pos_one {
            proof {
                assert(b[pointer_two as int] == a[pointer_one as int] + 1);
                lemma_scan_finds_pair(a, b, pointer_one as int, pointer_two as int);
            }
            return true;
        }
        if pos_one < pos_two {
            pointer_one += 1;
        } else {
            pointer_two += 1;
        }
    }
    false
}

} // verus!
