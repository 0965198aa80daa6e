//! Cell selection: which matrix positions to sample for a block.
//!
//! Two strategies exist. Random selection draws positions uniformly,
//! rejecting duplicates, until `min(8, rows * cols)` distinct cells are
//! collected; it is the default. Application-specific selection scans a
//! contiguous region of the matrix starting at an application's offset.

use vstd::prelude::*;
use vstd::arithmetic::div_mod::lemma_fundamental_div_mod_converse;
use vstd::arithmetic::div_mod::lemma_fundamental_div_mod;
use vstd::arithmetic::div_mod::lemma_multiply_divide_lt;
use vstd::arithmetic::div_mod::lemma_mod_division_less_than_divisor;
use vstd::set_lib::set_int_range;
use vstd::set_lib::lemma_int_range;
use vstd::set_lib::lemma_len_subset;
use crate::types::Cell;

verus! {

/// Relies on `rand::random`: one draw from the thread-local generator.
/// Nothing is promised of the value; every caller must cope with any
/// outcome.
#[verifier::external_body]
fn random_u16() -> u16 {
    rand::random::<u16>()
}

/// Some cell of `s` sits at `(row, col)`.
pub open spec fn has_position(s: Seq<Cell>, row: u16, col: u16) -> bool {
    exists|i: int| 0 <= i < s.len() && #[trigger] s[i].row == row && s[i].col == col
}

/// No two cells of `s` share a position.
pub open spec fn distinct_positions(s: Seq<Cell>) -> bool {
    forall|i: int, j: int|
        0 <= i < j < s.len() ==> !(#[trigger] s[i].row == #[trigger] s[j].row && s[i].col
            == s[j].col)
}

/// Every cell of `s` addresses a position of a `rows x cols` matrix.
pub open spec fn cells_in_bounds(s: Seq<Cell>, rows: u16, cols: u16) -> bool {
    forall|i: int| 0 <= i < s.len() ==> #[trigger] s[i].in_bounds(rows, cols)
}

/// Every cell of `s` belongs to `block` and carries no proof yet.
pub open spec fn fresh_cells_for(s: Seq<Cell>, block: u64) -> bool {
    forall|i: int|
        0 <= i < s.len() ==> #[trigger] s[i].block == block && s[i].proof@.len() == 0
}

/// How many cells random selection yields: the whole matrix when it is
/// small, eight otherwise.
pub open spec fn random_sample_target(rows: u16, cols: u16) -> int {
    if rows * cols < 8 {
        rows * cols
    } else {
        8
    }
}

/// The cells of an application-specific scan: `size` cells in the row of
/// the (truncated) offset, starting at the offset's column and walking
/// right one column per cell.
pub open spec fn app_scan_cells(
    cells: Seq<Cell>,
    size: u32,
    offset: u32,
    cols: u16,
    block: u64,
) -> bool
    recommends
        cols > 0,
{
    &&& cells.len() == size
    &&& forall|i: int|
        0 <= i < cells.len() ==> {
            let c = #[trigger] cells[i];
            c.block == block && c.row == (offset as u16) / cols && c.col == ((offset as u16)
                % cols) + i && c.proof@.len() == 0
        }
}

/// Selection cannot proceed on an empty matrix.
#[derive(Debug, PartialEq, Eq, Clone, Copy)]
pub enum SelectionError {
    EmptyMatrix,
}

/// Whether some cell of `cells` already occupies `(row, col)`; the
/// duplicate check of the rejection-sampling loop.
fn contains_position(cells: &Vec<Cell>, row: u16, col: u16) -> (r: bool)
    ensures
        r == has_position(cells@, row, col),
{
    let mut i: usize = 0;
    while i < cells.len()
        invariant
            i <= cells@.len(),
            forall|k: int| 0 <= k < i ==> !(#[trigger] cells@[k].row == row && cells@[k].col == col),
        decreases cells@.len() - i,
    {
        if cells[i].row == row && cells[i].col == col {
            return true;
        }
        i = i + 1;
    }
    false
}

/// Appending a cell at a position not yet taken keeps positions distinct.
proof fn lemma_push_distinct(s: Seq<Cell>, c: Cell)
    requires
        distinct_positions(s),
        !has_position(s, c.row, c.col),
    ensures
        distinct_positions(s.push(c)),
{
    let t = s.push(c);
    assert forall|i: int, j: int| 0 <= i < j < t.len() implies !(t[i].row == t[j].row && t[i].col
        == t[j].col) by {
        if j == s.len() {
            assert(t[i] == s[i]);
            if s[i].row == c.row && s[i].col == c.col {
                assert(has_position(s, c.row, c.col));
            }
        } else {
            assert(t[i] == s[i] && t[j] == s[j]);
        }
    }
}

/// A set of cells with distinct in-bounds positions that covers every
/// position of the matrix holds at least as many cells as the matrix has
/// positions.
proof fn lemma_positions_pigeonhole(s: Seq<Cell>, rows: u16, cols: u16)
    requires
        rows > 0,
        cols > 0,
        distinct_positions(s),
        cells_in_bounds(s, rows, cols),
        forall|q: int|
            0 <= q < rows * cols ==> #[trigger] has_position(
                s,
                ((q / (cols as int)) as u16),
                ((q % (cols as int)) as u16),
            ),
    ensures
        s.len() >= rows * cols,
{
    let c = cols as int;
    let pos = s.map(|i: int, cell: Cell| (cell.row as int) * c + (cell.col as int));
    assert forall|i: int, j: int| 0 <= i < j < pos.len() implies pos[i] != pos[j] by {
        if pos[i] == pos[j] {
            let v = pos[i];
            assert(s[i].in_bounds(rows, cols));
            assert(s[j].in_bounds(rows, cols));
            lemma_fundamental_div_mod_converse(v, c, s[i].row as int, s[i].col as int);
            lemma_fundamental_div_mod_converse(v, c, s[j].row as int, s[j].col as int);
            assert(s[i].row == s[j].row && s[i].col == s[j].col);
        }
    }
    assert(pos.no_duplicates());
    let all = set_int_range(0, rows * cols);
    assert forall|q: int| all.contains(q) implies pos.to_set().contains(q) by {
        let qr = q / c;
        let qc = q % c;
        lemma_mod_division_less_than_divisor(q, c);
        assert(q < c * (rows as int)) by (nonlinear_arith)
            requires
                q < rows * cols,
                c == cols,
        ;
        lemma_multiply_divide_lt(q, c, rows as int);
        vstd::arithmetic::div_mod::lemma_div_pos_is_pos(q, c);
        assert(has_position(s, (qr as u16), (qc as u16)));
        let i = choose|i: int|
            0 <= i < s.len() && #[trigger] s[i].row == ((qr) as u16) && s[i].col == ((qc) as u16);
        assert(pos[i] == (s[i].row as int) * c + (s[i].col as int));
        assert((s[i].row as int) == qr && (s[i].col as int) == qc);
        lemma_fundamental_div_mod(q, c);
        assert(qr * c == c * qr) by (nonlinear_arith);
        assert(pos[i] == q);
        assert(pos.contains(q));
    }
    vstd::seq_lib::seq_to_set_is_finite(pos);
    lemma_len_subset(all, pos.to_set());
    lemma_int_range(0, rows * cols);
    pos.unique_seq_to_set();
}

/// Draws `min(8, rows * cols)` distinct cells of the matrix uniformly at
/// random, rejecting duplicate positions. A bounded number of draws is
/// attempted; in the (overwhelmingly improbable) event that the budget is
/// exhausted first, the remaining cells are taken as the first free
/// positions in row-major order, so the count is met on every path. An
/// empty matrix is a definite failure: there is nothing to sample.
pub fn generate_random_cells(max_rows: u16, max_cols: u16, block: u64) -> (r: Result<
    Vec<Cell>,
    SelectionError,
>)
    ensures
        match r {
            Ok(cells) => max_rows > 0 && max_cols > 0 && cells@.len() == random_sample_target(
                max_rows,
                max_cols,
            ) && distinct_positions(cells@) && cells_in_bounds(cells@, max_rows, max_cols)
                && fresh_cells_for(cells@, block),
            Err(e) => (max_rows == 0 || max_cols == 0) && e == SelectionError::EmptyMatrix,
        },
{
    if max_rows == 0 || max_cols == 0 {
        return Err(SelectionError::EmptyMatrix);
    }
    proof {
        assert((max_rows as int) * (max_cols as int) <= 0xFFFF * 0xFFFF) by (nonlinear_arith)
            requires
                max_rows <= 0xFFFF,
                max_cols <= 0xFFFF,
        ;
        assert((max_rows as int) * (max_cols as int) >= 1) by (nonlinear_arith)
            requires
                max_rows >= 1,
                max_cols >= 1,
        ;
    }
    let total: u32 = (max_rows as u32) * (max_cols as u32);
    let target: u32 = if total < 8 {
        total
    } else {
        8
    };
    let mut cells: Vec<Cell> = Vec::new();
    let mut attempts: u32 = 0;
    while attempts < 4096 && cells.len() < target as usize
        invariant
            max_rows > 0,
            max_cols > 0,
            total == (max_rows as int) * (max_cols as int),
            target == random_sample_target(max_rows, max_cols),
            cells@.len() <= target,
            distinct_positions(cells@),
            cells_in_bounds(cells@, max_rows, max_cols),
            fresh_cells_for(cells@, block),
        decreases 4096 - attempts,
    {
        let row = random_u16() % max_rows;
        let col = random_u16() % max_cols;
        if !contains_position(&cells, row, col) {
            let fresh: Vec<u8> = Vec::new();
            let cell = Cell { block, row, col, proof: fresh };
            proof {
                lemma_push_distinct(cells@, cell);
            }
            cells.push(cell);
        }
        attempts = attempts + 1;
    }
    let mut p: u32 = 0;
    while p < total && cells.len() < target as usize
        invariant
            max_rows > 0,
            max_cols > 0,
            total == (max_rows as int) * (max_cols as int),
            target == random_sample_target(max_rows, max_cols),
            p <= total,
            cells@.len() <= target,
            distinct_positions(cells@),
            cells_in_bounds(cells@, max_rows, max_cols),
            fresh_cells_for(cells@, block),
            forall|q: int|
                0 <= q < p ==> #[trigger] has_position(
                    cells@,
                    ((q / (max_cols as int)) as u16),
                    ((q % (max_cols as int)) as u16),
                ),
        decreases total - p,
    {
        proof {
            assert((p as int) < (max_cols as int) * (max_rows as int)) by (nonlinear_arith)
                requires
                    (p as int) < total,
                    total == (max_rows as int) * (max_cols as int),
            ;
            lemma_multiply_divide_lt(p as int, max_cols as int, max_rows as int);
            lemma_mod_division_less_than_divisor(p as int, max_cols as int);
        }
        let row = (p / (max_cols as u32)) as u16;
        let col = (p % (max_cols as u32)) as u16;
        let ghost pre = cells@;
        if !contains_position(&cells, row, col) {
            let fresh: Vec<u8> = Vec::new();
            let cell = Cell { block, row, col, proof: fresh };
            proof {
                lemma_push_distinct(cells@, cell);
            }
            cells.push(cell);
        }
        proof {
            assert forall|q: int| 0 <= q < p + 1 implies #[trigger] has_position(
                cells@,
                ((q / (max_cols as int)) as u16),
                ((q % (max_cols as int)) as u16),
            ) by {
                if q < p {
                    let qrow = ((q / (max_cols as int)) as u16);
                    let qcol = ((q % (max_cols as int)) as u16);
                    assert(has_position(pre, qrow, qcol));
                    let i = choose|i: int|
                        0 <= i < pre.len() && #[trigger] pre[i].row == qrow && pre[i].col == qcol;
                    assert(cells@[i] == pre[i]);
                    assert(cells@[i].row == qrow && cells@[i].col == qcol);
                } else {
                    if has_position(pre, row, col) {
                        let i = choose|i: int|
                            0 <= i < pre.len() && #[trigger] pre[i].row == row && pre[i].col
                                == col;
                        assert(cells@[i].row == row && cells@[i].col == col);
                    } else {
                        assert(cells@[pre.len() as int].row == row && cells@[pre.len() as int].col
                            == col);
                    }
                    assert(has_position(cells@, row, col));
                }
            }
        }
        p = p + 1;
    }
    if cells.len() < target as usize {
        proof {
            lemma_positions_pigeonhole(cells@, max_rows, max_cols);
        }
    }
    Ok(cells)
}

/// Produces exactly `size` cells scanning the matrix from an
/// application's starting offset: cell `i` sits in the row of the
/// (truncated) offset, `i` columns to the right of it. The scan does not
/// wrap overflowing columns into later rows; callers keep `size` within
/// the row's remainder of the 16-bit column space, which also keeps the
/// column arithmetic from overflowing.
pub fn generate_app_specific_cells(
    size: u32,
    index: u32,
    max_rows: u16,
    max_cols: u16,
    block: u64,
) -> (r: Vec<Cell>)
    requires
        max_rows > 0,
        max_cols > 0,
        ((index as u16) % max_cols) + size <= 0x1_0000,
    ensures
        app_scan_cells(r@, size, index, max_cols, block),
        fresh_cells_for(r@, block),
{
    let start_row: u16 = (index as u16) / max_cols;
    let start_col: u16 = (index as u16) % max_cols;
    let mut buf: Vec<Cell> = Vec::new();
    let mut i: u32 = 0;
    while i < size
        invariant
            start_row == (index as u16) / max_cols,
            start_col == (index as u16) % max_cols,
            (start_col as int) + size <= 0x1_0000,
            i <= size,
            buf@.len() == i,
            forall|k: int|
                0 <= k < i ==> {
                    let c = #[trigger] buf@[k];
                    c.block == block && c.row == start_row && c.col == (start_col as int) + k
                        && c.proof@.len() == 0
                },
        decreases size - i,
    {
        let fresh: Vec<u8> = Vec::new();
        buf.push(Cell { block, row: start_row, col: start_col + (i as u16), proof: fresh });
        i = i + 1;
    }
    buf
}

} // verus!
