//! Spreading documents over storage nodes by a hash of their id.

use vstd::prelude::*;
use std::collections::hash_map::DefaultHasher;
use std::hash::{Hash, Hasher};
use crate::text::{decimal, with_decimal};

verus! {

broadcast use vstd::string::group_string_axioms;

/// A document on its way to a node.
#[derive(Debug)]
pub struct IncomingDocument {
    pub document_id: String,
    pub text: String,
}

/// A storage node: its name and the folder it keeps documents in.
#[derive(Debug)]
pub struct ShardNode {
    pub name: String,
    pub storage_dir: String,
}

/// The nodes documents are spread over.
pub struct ClusterOrchestrator {
    pub shards: Vec<ShardNode>,
}

/// The name of node `i`.
pub open spec fn node_name(i: nat) -> Seq<char> {
    "Node-"@ + decimal(i)
}

/// The folder of node `i`.
pub open spec fn node_dir(i: nat) -> Seq<char> {
    "./data/shard_"@ + decimal(i)
}

/// What `DefaultHasher::new`, then `Hash::hash` of a string, then
/// `Hasher::finish` give for the string's characters.
pub uninterp spec fn default_hash_of(s: Seq<char>) -> u64;

/// `DefaultHasher::new`, then `Hash::hash` of the string, then
/// `Hasher::finish`. std documents that every hasher made by
/// `DefaultHasher::new` is the same one (it is not seeded per process);
/// the contract claims only that the hash is a fixed function of the
/// string. std leaves the algorithm unspecified and free to change between
/// its releases, so that function is one build's.
#[verifier::external_body]
fn default_hash_of_str(s: &str) -> (h: u64)
    ensures
        h == default_hash_of(s@),
{
    let mut hasher = DefaultHasher::new();
    s.hash(&mut hasher);
    hasher.finish()
}

/// The node, of `n`, for a document id: its default hash modulo `n`.
pub open spec fn shard_of(document_id: Seq<char>, n: nat) -> nat {
    default_hash_of(document_id) as nat % n
}

impl ClusterOrchestrator {
    /// Nodes `Node-0` to `Node-{n-1}`, each with its own folder.
    pub fn new(number_of_shards: usize) -> (r: Self)
        ensures
            r.shards@.len() == number_of_shards,
            forall|i: int| 0 <= i < number_of_shards ==> {
                &&& #[trigger] r.shards@[i].name@ == node_name(i as nat)
                &&& r.shards@[i].storage_dir@ == node_dir(i as nat)
            },
    {
        let mut shards: Vec<ShardNode> = Vec::new();
        let mut i: usize = 0;
        while i < number_of_shards
            invariant
                i <= number_of_shards,
                shards@.len() == i,
                forall|k: int| 0 <= k < i ==> {
                    &&& #[trigger] shards@[k].name@ == node_name(k as nat)
                    &&& shards@[k].storage_dir@ == node_dir(k as nat)
                },
            decreases number_of_shards - i,
        {
            let node = ShardNode { name: with_decimal("Node-", i), storage_dir: with_decimal("./data/shard_", i) };
            shards.push(node);
            i = i + 1;
        }
        ClusterOrchestrator { shards }
    }

    /// The node a document goes to: the hash of its id modulo the number of
    /// nodes. The hash is std's default one, so the node is a fixed
    /// function of the id within one build.
    pub fn calculate_shard_for_document(&self, document_id: &str) -> (r: usize)
        requires
            self.shards@.len() > 0,
        ensures
            r as nat == shard_of(document_id@, self.shards@.len()),
            r < self.shards@.len(),
    {
        let giant_number = default_hash_of_str(document_id);
        self.shard_for_hash(giant_number)
    }

    /// The node for a hash value: the hash modulo the number of nodes.
    pub fn shard_for_hash(&self, hash: u64) -> (r: usize)
        requires
            self.shards@.len() > 0,
        ensures
            r as nat == hash as nat % self.shards@.len(),
            r < self.shards@.len(),
    {
        let count = self.shards.len() as u64;
        let shard_index = hash % count;
        shard_index as usize
    }

    /// The node a document is routed to: the node for its id.
    pub fn route(&self, document: &IncomingDocument) -> (r: usize)
        requires
            self.shards@.len() > 0,
        ensures
            r as nat == shard_of(document.document_id@, self.shards@.len()),
            r < self.shards@.len(),
    {
        self.calculate_shard_for_document(document.document_id.as_str())
    }
}

} // verus!
