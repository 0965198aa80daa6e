//! The verification driver.
//!
//! The driver receives the sampled cells (with their fetched proofs), the
//! header's commitment, and the proof-verification primitive's verdict for
//! each cell, and tallies how many cells verified. Every cell is evaluated
//! independently — no short-circuit on a failed proof — so the tally is the
//! number of accepted cells regardless of order. Malformed input (an empty
//! commitment, a cell out of bounds or without its 80-byte proof, a verdict
//! list of the wrong length) fails the whole verification loudly: a
//! malformed cell must not be silently counted as merely unavailable.

use vstd::prelude::*;
use crate::types::BlockProofResponse;
use crate::types::Cell;

verus! {

broadcast use vstd::multiset::group_multiset_axioms;

/// The number of `true` verdicts in `s`.
pub open spec fn count_true(s: Seq<bool>) -> int
    decreases s.len(),
{
    if s.len() == 0 {
        0
    } else {
        count_true(s.drop_last()) + if s.last() {
            1int
        } else {
            0int
        }
    }
}

/// The tally never exceeds the number of verdicts.
pub proof fn lemma_count_true_bounds(s: Seq<bool>)
    ensures
        0 <= count_true(s) <= s.len(),
    decreases s.len(),
{
    if s.len() > 0 {
        lemma_count_true_bounds(s.drop_last());
    }
}

/// The tally depends only on how many verdicts are `true`, not on their
/// order: it equals the multiset count of `true` among the verdicts, so
/// any reordering of the same verdicts yields the same tally.
pub proof fn lemma_count_true_is_multiset_count(s: Seq<bool>)
    ensures
        count_true(s) == s.to_multiset().count(true),
    decreases s.len(),
{
    s.to_multiset_ensures();
    if s.len() == 0 {
        assert(!s.contains(true));
    } else {
        let rest = s.drop_last();
        lemma_count_true_is_multiset_count(rest);
        rest.to_multiset_ensures();
        assert(rest.push(s.last()) =~= s);
        assert(s.to_multiset() =~= rest.to_multiset().insert(s.last()));
    }
}

/// Counts the `true` verdicts.
pub fn count_verified(verdicts: &Vec<bool>) -> (count: u32)
    requires
        verdicts@.len() <= 0xFFFF_FFFF,
    ensures
        count == count_true(verdicts@),
{
    let mut count: u32 = 0;
    let mut i: usize = 0;
    while i < verdicts.len()
        invariant
            i <= verdicts@.len() <= 0xFFFF_FFFF,
            count == count_true(verdicts@.take(i as int)),
            count <= i,
        decreases verdicts@.len() - i,
    {
        proof {
            assert(verdicts@.take(i + 1).drop_last() =~= verdicts@.take(i as int));
            assert(verdicts@.take(i + 1).last() == verdicts@[i as int]);
            lemma_count_true_bounds(verdicts@.take(i as int));
        }
        if verdicts[i] {
            count = count + 1;
        }
        i = i + 1;
    }
    proof {
        assert(verdicts@.take(verdicts@.len() as int) =~= verdicts@);
    }
    count
}

/// Slices the fetched proof blob into the cells, 80 bytes per cell in
/// request order. The response must hold exactly 80 bytes per cell;
/// `attach_proofs` is the checked entry that establishes this.
pub fn fill_cells_with_proofs(cells: &mut Vec<Cell>, response: &BlockProofResponse)
    requires
        80 * old(cells)@.len() == response.result@.len(),
    ensures
        final(cells)@.len() == old(cells)@.len(),
        forall|i: int|
            0 <= i < old(cells)@.len() ==> {
                let c = #[trigger] final(cells)@[i];
                c.block == old(cells)@[i].block && c.row == old(cells)@[i].row && c.col == old(
                    cells,
                )@[i].col && c.proof@ == response.result@.subrange(80 * i, 80 * i + 80)
            },
{
    let n = cells.len();
    let m = response.result.len();
    let mut filled: Vec<Cell> = Vec::new();
    let mut i: usize = 0;
    while i < n
        invariant
            cells@ == old(cells)@,
            n == cells@.len(),
            m == response.result@.len(),
            80 * (n as int) == m,
            i <= n,
            filled@.len() == i,
            forall|k: int|
                0 <= k < i ==> {
                    let c = #[trigger] filled@[k];
                    c.block == cells@[k].block && c.row == cells@[k].row && c.col == cells@[k].col
                        && c.proof@ == response.result@.subrange(80 * k, 80 * k + 80)
                },
        decreases n - i,
    {
        let mut v: Vec<u8> = Vec::new();
        let mut j: usize = 0;
        while j < 80
            invariant
                j <= 80,
                i < n,
                m == response.result@.len(),
                80 * (n as int) == m,
                v@.len() == j,
                v@ == response.result@.subrange(80 * i, 80 * i + j),
            decreases 80 - j,
        {
            let byte = response.result[80 * i + j];
            v.push(byte);
            proof {
                assert(v@ =~= response.result@.subrange(80 * i, 80 * i + j + 1));
            }
            j = j + 1;
        }
        let cell = Cell { block: cells[i].block, row: cells[i].row, col: cells[i].col, proof: v };
        filled.push(cell);
        i = i + 1;
    }
    *cells = filled;
}

/// The fetched proof blob does not hold exactly 80 bytes per requested
/// cell; slicing it would truncate or pad, so the fetch step fails.
#[derive(Debug, PartialEq, Eq, Clone, Copy)]
pub struct ProofLengthMismatch;

/// Checks the fetched blob's length against the request — exactly 80
/// bytes per cell — and attaches the per-cell slices, in request order.
/// A mismatched response fails loudly and leaves the cells untouched.
pub fn attach_proofs(cells: &mut Vec<Cell>, response: &BlockProofResponse) -> (r: Result<
    (),
    ProofLengthMismatch,
>)
    ensures
        match r {
            Ok(()) => 80 * old(cells)@.len() == response.result@.len() && final(cells)@.len()
                == old(cells)@.len() && forall|i: int|
                0 <= i < old(cells)@.len() ==> {
                    let c = #[trigger] final(cells)@[i];
                    c.block == old(cells)@[i].block && c.row == old(cells)@[i].row && c.col == old(
                        cells,
                    )@[i].col && c.proof@ == response.result@.subrange(80 * i, 80 * i + 80)
                },
            Err(_) => 80 * old(cells)@.len() != response.result@.len() && final(cells)@ == old(
                cells,
            )@,
        },
{
    let n = cells.len();
    let m = response.result.len();
    if n > usize::MAX / 80 || 80 * n != m {
        proof {
            if n > usize::MAX / 80 {
                assert(80 * (n as int) > usize::MAX);
            }
        }
        return Err(ProofLengthMismatch);
    }
    fill_cells_with_proofs(cells, response);
    Ok(())
}

/// Verification failed as a whole: the infrastructure handed the driver
/// something malformed, which is distinct from a proof merely being
/// rejected.
#[derive(Debug, PartialEq, Eq, Clone, Copy)]
pub enum VerificationError {
    /// The commitment is empty; the verification primitive's behaviour is
    /// undefined on empty buffers, so the driver refuses the call.
    EmptyCommitment,
    /// Some cell is outside the matrix or lacks its 80-byte proof.
    MalformedCell,
    /// The verdict list does not pair up with the cells.
    VerdictCountMismatch,
}

/// Every cell addresses the matrix and carries its fetched proof.
pub open spec fn all_cells_well_formed(cells: Seq<Cell>, rows: u16, cols: u16) -> bool {
    forall|i: int|
        0 <= i < cells.len() ==> (#[trigger] cells[i]).in_bounds(rows, cols) && cells[i].has_proof()
}

/// Tallies the verification verdicts for a block's sampled cells.
///
/// `verdicts[i]` is the proof-verification primitive's answer for
/// `cells[i]`. On success the result is exactly the number of accepted
/// cells; every cell is counted independently, so the tally does not
/// depend on the order of evaluation. The driver first checks what the
/// primitive's contract demands — a non-empty commitment, in-bounds cells
/// each carrying its 80-byte proof, one verdict per cell — and fails the
/// whole verification otherwise.
pub fn verify_proof(
    max_rows: u16,
    max_cols: u16,
    cells: &Vec<Cell>,
    commitment: &Vec<u8>,
    verdicts: &Vec<bool>,
) -> (r: Result<u32, VerificationError>)
    requires
        cells@.len() <= 0xFFFF_FFFF,
    ensures
        match r {
            Ok(count) => commitment@.len() > 0 && all_cells_well_formed(
                cells@,
                max_rows,
                max_cols,
            ) && verdicts@.len() == cells@.len() && count == count_true(verdicts@),
            Err(VerificationError::EmptyCommitment) => commitment@.len() == 0,
            Err(VerificationError::MalformedCell) => commitment@.len() > 0
                && !all_cells_well_formed(cells@, max_rows, max_cols),
            Err(VerificationError::VerdictCountMismatch) => commitment@.len() > 0
                && all_cells_well_formed(cells@, max_rows, max_cols) && verdicts@.len()
                != cells@.len(),
        },
{
    if commitment.len() == 0 {
        return Err(VerificationError::EmptyCommitment);
    }
    let mut i: usize = 0;
    while i < cells.len()
        invariant
            i <= cells@.len(),
            commitment@.len() > 0,
            forall|k: int|
                0 <= k < i ==> (#[trigger] cells@[k]).in_bounds(max_rows, max_cols)
                    && cells@[k].has_proof(),
        decreases cells@.len() - i,
    {
        if cells[i].row >= max_rows || cells[i].col >= max_cols || cells[i].proof.len() != 80 {
            proof {
                assert(!((#[trigger] cells@[i as int]).in_bounds(max_rows, max_cols)
                    && cells@[i as int].has_proof()));
                assert(!all_cells_well_formed(cells@, max_rows, max_cols));
            }
            return Err(VerificationError::MalformedCell);
        }
        i = i + 1;
    }
    if verdicts.len() != cells.len() {
        return Err(VerificationError::VerdictCountMismatch);
    }
    Ok(count_verified(verdicts))
}

} // verus!
