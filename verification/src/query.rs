//! The on-demand query service's decision logic.
//!
//! A confidence query is answered from the block store when the block has
//! a recorded count; otherwise the caller runs the same fetch-and-verify
//! pipeline as the ingestion loop and completes the query with the count
//! it obtained. Confidence is always recomputed from the stored count, so
//! both paths agree on the formula by construction. When the pipeline
//! cannot run — the proof fetch is unreachable, the header malformed —
//! the query surfaces that failure; it never fabricates a zero-confidence
//! reply for a block it could not verify.

use vstd::prelude::*;
use crate::confidence::calculate_confidence;
use crate::confidence::serialised_confidence;
use crate::confidence::spec_confidence_factor;
use crate::confidence::spec_encoded_confidence;
use crate::numerals::spec_decimal;
use crate::store::Store;

verus! {

/// A served confidence record: the durable count plus the two derived
/// views of it.
pub struct ConfidenceReply {
    pub block: u64,
    pub count: u32,
    pub factor: u64,
    pub serialised: String,
}

/// The reply `r` is exactly what `count` verified samples for `block`
/// yield: the fixed-point factor and its packed decimal encoding.
pub open spec fn reply_is_for(r: ConfidenceReply, block: u64, count: u32) -> bool {
    &&& r.block == block
    &&& r.count == count
    &&& r.factor == spec_confidence_factor(count as nat)
    &&& r.serialised@ == spec_decimal(
        spec_encoded_confidence(block, spec_confidence_factor(count as nat) as u64) as nat,
    )
}

/// Derives the confidence views from a verified-sample count. This is
/// the single place the formula is applied, for both access paths.
pub fn confidence_reply(block: u64, count: u32) -> (r: ConfidenceReply)
    ensures
        reply_is_for(r, block, count),
{
    let factor = calculate_confidence(count);
    let serialised = serialised_confidence(block, factor);
    ConfidenceReply { block, count, factor, serialised }
}

/// The cache-hit path: answers from the store alone, with no network
/// work. Nothing is returned precisely when the block has no recorded
/// count yet.
pub fn respond_from_cache(store: &Store, block: u64) -> (r: Option<ConfidenceReply>)
    ensures
        match r {
            Some(reply) => store@.contains_key(block) && reply_is_for(reply, block, store@[block]),
            None => !store@.contains_key(block),
        },
{
    match store.get(block) {
        Some(count) => Some(confidence_reply(block, count)),
        None => None,
    }
}

/// The cache-miss completion: records the count the synchronous
/// verification produced — overwriting any concurrent record, last write
/// wins — and derives the reply from that same count.
pub fn respond_after_verification(store: &mut Store, block: u64, count: u32) -> (r:
    ConfidenceReply)
    ensures
        final(store)@ == old(store)@.insert(block, count),
        reply_is_for(r, block, count),
{
    store.set(block, count);
    confidence_reply(block, count)
}

} // verus!
