//! The per-header decision logic of the ingestion loop.
//!
//! For every header notification the loop decodes the block number,
//! chooses a selection strategy — random unless the header carries an
//! application-data index — and prepares the proof-fetch request. The
//! surrounding loop performs the fetch, attaches the proofs, runs the
//! verification driver, and records the count; a header this function
//! rejects is abandoned without touching the store, and the loop keeps
//! running.

use vstd::prelude::*;
use crate::numerals::all_hex_digits;
use crate::numerals::parse_block_number;
use crate::numerals::spec_hex_value;
use crate::numerals::strip_hex_prefix;
use crate::payload::generate_kate_query_payload;
use crate::payload::spec_kate_query_payload;
use crate::sampling::app_scan_cells;
use crate::sampling::cells_in_bounds;
use crate::sampling::distinct_positions;
use crate::sampling::fresh_cells_for;
use crate::sampling::generate_app_specific_cells;
use crate::sampling::generate_random_cells;
use crate::sampling::random_sample_target;
use crate::types::Cell;
use crate::types::Header;

verus! {

/// Why a header was abandoned.
#[derive(Debug, PartialEq, Eq, Clone, Copy)]
pub enum HeaderError {
    /// The block-number string is not hex, is empty after its prefix, or
    /// overflows 64 bits.
    UnparsableNumber,
    /// The header announces a matrix with no rows or no columns; there is
    /// nothing to sample.
    EmptyMatrix,
    /// The application-data region runs past the 16-bit column space, so
    /// the scan's column arithmetic cannot represent it.
    AppRegionTooLarge,
}

/// Everything the fetch step needs for one block: the decoded number,
/// the selected cells (no proofs yet), and the proof-fetch request.
pub struct SamplingPlan {
    pub block: u64,
    pub cells: Vec<Cell>,
    pub payload: String,
}

/// The header parses and its matrix is sampleable.
pub open spec fn header_accepted(h: Header) -> bool {
    &&& strip_hex_prefix(h.number@).len() > 0
    &&& all_hex_digits(strip_hex_prefix(h.number@))
    &&& spec_hex_value(strip_hex_prefix(h.number@)) <= u64::MAX
    &&& h.extrinsics_root.rows > 0
    &&& h.extrinsics_root.cols > 0
}

/// Decodes the header and selects the cells to sample: the
/// application-specific scan when the header carries an application-data
/// index, the random strategy otherwise. Returns a plan exactly when the
/// block number decodes, the matrix is non-empty, and an application
/// region (if any) fits the column space; each rejection names its
/// reason.
pub fn plan_sampling(header: &Header) -> (r: Result<SamplingPlan, HeaderError>)
    ensures
        match r {
            Ok(plan) => {
                let rows = header.extrinsics_root.rows;
                let cols = header.extrinsics_root.cols;
                &&& header_accepted(*header)
                &&& plan.block == spec_hex_value(strip_hex_prefix(header.number@))
                &&& fresh_cells_for(plan.cells@, plan.block)
                &&& plan.payload@ == spec_kate_query_payload(plan.block, plan.cells@)
                &&& if header.app_data_lookup.index@.len() == 0 {
                    plan.cells@.len() == random_sample_target(rows, cols) && distinct_positions(
                        plan.cells@,
                    ) && cells_in_bounds(plan.cells@, rows, cols)
                } else {
                    app_scan_cells(
                        plan.cells@,
                        header.app_data_lookup.size,
                        header.app_data_lookup.index@[0].1,
                        cols,
                        plan.block,
                    )
                }
            },
            Err(HeaderError::UnparsableNumber) => {
                let t = strip_hex_prefix(header.number@);
                t.len() == 0 || !all_hex_digits(t) || spec_hex_value(t) > u64::MAX
            },
            Err(HeaderError::EmptyMatrix) => {
                let t = strip_hex_prefix(header.number@);
                &&& t.len() > 0
                &&& all_hex_digits(t)
                &&& spec_hex_value(t) <= u64::MAX
                &&& (header.extrinsics_root.rows == 0 || header.extrinsics_root.cols == 0)
            },
            Err(HeaderError::AppRegionTooLarge) => {
                let cols = header.extrinsics_root.cols;
                &&& header_accepted(*header)
                &&& header.app_data_lookup.index@.len() > 0
                &&& ((header.app_data_lookup.index@[0].1 as u16) % cols)
                    + header.app_data_lookup.size > 0x1_0000
            },
        },
{
    let block = match parse_block_number(header.number.as_str()) {
        Some(v) => v,
        None => {
            return Err(HeaderError::UnparsableNumber);
        },
    };
    let rows = header.extrinsics_root.rows;
    let cols = header.extrinsics_root.cols;
    if rows == 0 || cols == 0 {
        return Err(HeaderError::EmptyMatrix);
    }
    let cells: Vec<Cell> = if header.app_data_lookup.index.len() == 0 {
        match generate_random_cells(rows, cols, block) {
            Ok(cells) => cells,
            Err(_) => {
                proof {
                    assert(false);
                }
                return Err(HeaderError::EmptyMatrix);
            },
        }
    } else {
        let size = header.app_data_lookup.size;
        let offset = header.app_data_lookup.index[0].1;
        if ((offset as u16) % cols) as u64 + size as u64 > 0x1_0000 {
            return Err(HeaderError::AppRegionTooLarge);
        }
        generate_app_specific_cells(size, offset, rows, cols, block)
    };
    let payload = generate_kate_query_payload(block, &cells);
    Ok(SamplingPlan { block, cells, payload })
}

} // verus!
