//! The in-memory table that collects documents before they are written out
//! as a segment: a skip list ordered by document id, and a byte count.

use vstd::prelude::*;
use crossbeam_skiplist::SkipMap;
use vstd::utf8::encode_utf8;

verus! {

#[verifier::external_type_specification]
#[verifier::external_body]
#[verifier::reject_recursive_types(K)]
#[verifier::reject_recursive_types(V)]
pub struct ExSkipMap<K, V>(SkipMap<K, V>);

/// A skip map of documents by id.
pub type Board = SkipMap<u32, String>;

/// A document id with its text.
pub type Entry = (u32, String);

/// The entries of a skip map of documents: each id with its text.
pub uninterp spec fn skip_map_contents(m: SkipMap<u32, String>) -> Map<u32, Seq<char>>;

/// No documents at all.
pub open spec fn no_documents() -> Map<u32, Seq<char>> {
    Map::empty()
}

/// `SkipMap::new`: an empty map.
#[verifier::external_body]
fn board_new() -> (fresh: Board)
    ensures
        skip_map_contents(fresh) == no_documents(),
{
    SkipMap::new()
}

/// `SkipMap::insert`: maps `key` to `value`, replacing the entry the key
/// had before, if any.
#[verifier::external_body]
fn board_insert(m: &mut Board, key: u32, value: String)
    ensures
        skip_map_contents(*final(m)) == skip_map_contents(*old(m)).insert(key, value@),
{
    let _ = m.insert(key, value);
}

/// `SkipMap::iter`: every entry, by ascending key, each key with a copy of
/// its value.
#[verifier::external_body]
fn board_entries(m: &Board) -> (v: Vec<Entry>)
    ensures
        forall|i: int, j: int| 0 <= i < j < v@.len() ==> v@[i].0 < v@[j].0,
        forall|i: int| 0 <= i < v@.len() ==> skip_map_contents(*m).contains_key(#[trigger] v@[i].0)
            && skip_map_contents(*m)[v@[i].0] == v@[i].1@,
        forall|k: u32| #[trigger] skip_map_contents(*m).contains_key(k)
            ==> exists|i: int| 0 <= i < v@.len() && v@[i].0 == k,
{
    let mut v = Vec::new();
    for entry in m.iter() {
        v.push((*entry.key(), entry.value().clone()));
    }
    v
}

/// The number of bytes the UTF-8 encoding of `s` takes.
pub open spec fn byte_len(s: Seq<char>) -> nat {
    encode_utf8(s).len()
}

/// Documents waiting to be written out, by id, with the bytes they take.
pub struct MemTable {
    board: SkipMap<u32, String>,
    current_size_bytes: usize,
}

impl MemTable {
    /// The documents held, by id.
    pub closed spec fn contents(self) -> Map<u32, Seq<char>> {
        skip_map_contents(self.board)
    }

    /// The byte count: the sum of the sizes of all texts inserted, wrapping
    /// around at `usize::MAX`.
    pub closed spec fn size(self) -> usize {
        self.current_size_bytes
    }

    /// An empty memtable.
    pub fn new() -> (r: Self)
        ensures
            r.contents() == Map::<u32, Seq<char>>::empty(),
            r.size() == 0,
    {
        MemTable { board: board_new(), current_size_bytes: 0 }
    }

    /// Holds `content` under `doc_id`, replacing what the id held, and adds
    /// its size in bytes to the count.
    pub fn insert(&mut self, doc_id: u32, content: String)
        ensures
            final(self).contents() == old(self).contents().insert(doc_id, content@),
            final(self).size() == vstd::wrapping::usize_specs::wrapping_add(
                old(self).size(), byte_len(content@) as usize),
    {
        let text_size = content.as_str().len();
        board_insert(&mut self.board, doc_id, content);
        self.current_size_bytes = self.current_size_bytes.wrapping_add(text_size);
    }

    /// The byte count.
    pub fn get_size_bytes(&self) -> (n: usize)
        ensures
            n == self.size(),
    {
        self.current_size_bytes
    }

    /// Whether the texts take at least `max_size_bytes`.
    pub fn is_full(&self, max_size_bytes: usize) -> (r: bool)
        ensures
            r == (self.size() >= max_size_bytes),
    {
        self.get_size_bytes() >= max_size_bytes
    }

    /// Every document held, by ascending id.
    pub fn extract_all_sorted(&self) -> (v: Vec<(u32, String)>)
        ensures
            forall|i: int, j: int| 0 <= i < j < v@.len() ==> v@[i].0 < v@[j].0,
            forall|i: int| 0 <= i < v@.len() ==> self.contents().contains_key(#[trigger] v@[i].0)
                && self.contents()[v@[i].0] == v@[i].1@,
            forall|k: u32| #[trigger] self.contents().contains_key(k)
                ==> exists|i: int| 0 <= i < v@.len() && v@[i].0 == k,
    {
        board_entries(&self.board)
    }
}

} // verus!
