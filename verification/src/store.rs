//! The block store: the cache shared by the ingestion loop and the query
//! service.
//!
//! It maps a block number to the verified-sample count recorded for that
//! block. The count is the durable fact; confidence is recomputed from it
//! on every read. Writes overwrite unconditionally (last write wins) and
//! nothing is ever evicted. Concurrent callers share a store under one
//! lock around each whole operation; the structure itself is sequential.

use vstd::prelude::*;
use std::collections::HashMap;

verus! {

broadcast use vstd::std_specs::hash::group_hash_axioms;

/// The cache of verified-sample counts, keyed by block number.
pub struct Store {
    counts: HashMap<u64, u32>,
}

impl View for Store {
    type V = Map<u64, u32>;

    closed spec fn view(&self) -> Map<u64, u32> {
        self.counts@
    }
}

impl Store {
    /// An empty store: no block has a recorded count.
    pub fn new() -> (s: Store)
        ensures
            s@ == Map::<u64, u32>::empty(),
    {
        Store { counts: HashMap::new() }
    }

    /// The count recorded for `block`, or nothing if the block has never
    /// been recorded.
    pub fn get(&self, block: u64) -> (r: Option<u32>)
        ensures
            r == if self@.contains_key(block) {
                Some(self@[block])
            } else {
                None::<u32>
            },
    {
        match self.counts.get(&block) {
            Some(count) => Some(*count),
            None => None,
        }
    }

    /// Records `count` for `block`, overwriting any earlier record.
    pub fn set(&mut self, block: u64, count: u32)
        ensures
            final(self)@ == old(self)@.insert(block, count),
    {
        self.counts.insert(block, count);
    }
}

/// Last write wins: recording a count for a block and then recording
/// another leaves the store exactly as if only the second write had
/// happened; reads of every other block are unaffected.
pub proof fn lemma_last_write_wins(m: Map<u64, u32>, block: u64, c1: u32, c2: u32)
    ensures
        m.insert(block, c1).insert(block, c2) == m.insert(block, c2),
        m.insert(block, c2)[block] == c2,
        forall|b: u64| b != block ==> m.insert(block, c2).contains_key(b) == m.contains_key(b),
        forall|b: u64| b != block && m.contains_key(b) ==> m.insert(block, c2)[b] == m[b],
{
    assert(m.insert(block, c1).insert(block, c2) =~= m.insert(block, c2));
}

} // verus!
