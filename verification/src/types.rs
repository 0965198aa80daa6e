//! The data carried through the sampling pipeline.

use vstd::prelude::*;

verus! {

/// One sampled position of a block's data matrix. The selector creates a
/// cell without a proof; the proof blob — exactly 80 bytes once fetched —
/// is attached later. A cell never moves between blocks.
pub struct Cell {
    pub block: u64,
    pub row: u16,
    pub col: u16,
    pub proof: Vec<u8>,
}

impl Cell {
    /// The cell addresses a position of a `rows x cols` matrix.
    pub open spec fn in_bounds(&self, rows: u16, cols: u16) -> bool {
        self.row < rows && self.col < cols
    }

    /// The proof blob is exactly proof-length; until the fetch step fills
    /// it in, it is empty.
    pub open spec fn has_proof(&self) -> bool {
        self.proof@.len() == 80
    }
}

/// The matrix dimensions and per-row commitment published in a header.
pub struct ExtrinsicsRoot {
    pub rows: u16,
    pub cols: u16,
    pub commitment: Vec<u8>,
}

/// The application-data layout of a block: a total size and a list of
/// (application id, offset) pairs. An empty list means no
/// application-specific layout was requested.
pub struct AppDataIndex {
    pub size: u32,
    pub index: Vec<(u32, u32)>,
}

/// A block header as carried by a subscription notification. The block
/// number arrives as a hex-prefixed string and is decoded on use.
pub struct Header {
    pub number: String,
    pub extrinsics_root: ExtrinsicsRoot,
    pub app_data_lookup: AppDataIndex,
}

/// The payload of one header notification: the header itself plus the
/// identifier of the subscription that produced it.
pub struct QueryResult {
    pub result: Header,
    pub subscription: String,
}

/// One message of the header subscription stream.
pub struct Response {
    pub jsonrpc: String,
    pub method: String,
    pub params: QueryResult,
}

/// The reply to a proof-fetch request: the proofs for all requested
/// cells as one byte blob, 80 bytes per cell, in request order.
pub struct BlockProofResponse {
    pub result: Vec<u8>,
}

} // verus!
