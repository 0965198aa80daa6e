//! The proof-fetch request payload.
//!
//! A proof fetch asks the full node for the proofs of the selected cells
//! of one block: a JSON-RPC call carrying the block number and the list
//! of (row, col) positions, in the order the cells were selected — the
//! response blob is sliced back in that same order.

use vstd::prelude::*;
use vstd::string::*;
use crate::numerals::spec_decimal;
use crate::numerals::decimal_string;
use crate::types::Cell;

verus! {

/// The JSON object for one requested cell.
pub open spec fn spec_cell_json(c: Cell) -> Seq<char> {
    "{\"row\": "@ + spec_decimal(c.row as nat) + ", \"col\": "@ + spec_decimal(c.col as nat)
        + "}"@
}

/// The JSON array body for the requested cells, comma-separated, in
/// selection order.
pub open spec fn spec_cell_list(cells: Seq<Cell>) -> Seq<char>
    decreases cells.len(),
{
    if cells.len() == 0 {
        Seq::empty()
    } else if cells.len() == 1 {
        spec_cell_json(cells[0])
    } else {
        spec_cell_list(cells.drop_last()) + ", "@ + spec_cell_json(cells.last())
    }
}

/// The whole proof-fetch request for `block` and `cells`.
pub open spec fn spec_kate_query_payload(block: u64, cells: Seq<Cell>) -> Seq<char> {
    "{\"id\": 1, \"jsonrpc\": \"2.0\", \"method\": \"kate_queryProof\", \"params\": [\""@
        + spec_decimal(block as nat) + "\", ["@ + spec_cell_list(cells) + "]]}"@
}

/// Renders the proof-fetch request for `block` and `cells`.
pub fn generate_kate_query_payload(block: u64, cells: &Vec<Cell>) -> (s: String)
    ensures
        s@ == spec_kate_query_payload(block, cells@),
{
    let mut out = String::new();
    out.append("{\"id\": 1, \"jsonrpc\": \"2.0\", \"method\": \"kate_queryProof\", \"params\": [\"");
    let block_digits = decimal_string(block as u128);
    out.append(block_digits.as_str());
    out.append("\", [");
    let ghost prefix = out@;
    let mut i: usize = 0;
    while i < cells.len()
        invariant
            i <= cells@.len(),
            prefix == "{\"id\": 1, \"jsonrpc\": \"2.0\", \"method\": \"kate_queryProof\", \"params\": [\""@
                + spec_decimal(block as nat) + "\", ["@,
            out@ == prefix + spec_cell_list(cells@.take(i as int)),
        decreases cells@.len() - i,
    {
        let ghost before = out@;
        if i > 0 {
            out.append(", ");
        }
        out.append("{\"row\": ");
        let row_digits = decimal_string(cells[i].row as u128);
        out.append(row_digits.as_str());
        out.append(", \"col\": ");
        let col_digits = decimal_string(cells[i].col as u128);
        out.append(col_digits.as_str());
        out.append("}");
        proof {
            let t = cells@.take(i + 1);
            assert(t.drop_last() =~= cells@.take(i as int));
            assert(t.last() == cells@[i as int]);
            if i == 0 {
                assert(out@ =~= prefix + spec_cell_list(cells@.take(i + 1)));
            } else {
                assert(spec_cell_list(t) == spec_cell_list(cells@.take(i as int)) + ", "@
                    + spec_cell_json(cells@[i as int]));
                assert(out@ =~= prefix + spec_cell_list(cells@.take(i + 1)));
            }
        }
        i = i + 1;
    }
    out.append("]]}");
    proof {
        assert(cells@.take(cells@.len() as int) =~= cells@);
        assert(out@ =~= spec_kate_query_payload(block, cells@));
    }
    out
}

} // verus!
