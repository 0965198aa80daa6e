use light_client::driver::attach_proofs;
use light_client::driver::count_verified;
use light_client::driver::fill_cells_with_proofs;
use light_client::driver::verify_proof;
use light_client::driver::VerificationError;
use light_client::ingest::plan_sampling;
use light_client::ingest::HeaderError;
use light_client::payload::generate_kate_query_payload;
use light_client::query::respond_after_verification;
use light_client::query::respond_from_cache;
use light_client::routes::match_url;
use light_client::routes::RouteError;
use light_client::store::Store;
use light_client::types::AppDataIndex;
use light_client::types::BlockProofResponse;
use light_client::types::Cell;
use light_client::types::ExtrinsicsRoot;
use light_client::types::Header;

fn cell(block: u64, row: u16, col: u16) -> Cell {
    Cell { block, row, col, proof: Vec::new() }
}

fn cell_with_proof(block: u64, row: u16, col: u16, byte: u8) -> Cell {
    Cell { block, row, col, proof: vec![byte; 80] }
}

fn header(number: &str, rows: u16, cols: u16, index: Vec<(u32, u32)>, size: u32) -> Header {
    Header {
        number: number.to_string(),
        extrinsics_root: ExtrinsicsRoot { rows, cols, commitment: vec![1, 2, 3] },
        app_data_lookup: AppDataIndex { size, index },
    }
}

#[test]
fn proofs_are_sliced_in_request_order() {
    let mut cells = vec![cell(1, 0, 0), cell(1, 0, 1)];
    let blob: Vec<u8> = (0..160).map(|i| i as u8).collect();
    let response = BlockProofResponse { result: blob };
    fill_cells_with_proofs(&mut cells, &response);
    assert_eq!(cells.len(), 2);
    assert_eq!(cells[0].proof, (0..80).map(|i| i as u8).collect::<Vec<u8>>());
    assert_eq!(cells[1].proof, (80..160).map(|i| i as u8).collect::<Vec<u8>>());
    assert_eq!((cells[0].row, cells[0].col), (0, 0));
    assert_eq!((cells[1].row, cells[1].col), (0, 1));
}

#[test]
fn mismatched_proof_blob_fails_loudly() {
    let mut cells = vec![cell(1, 0, 0), cell(1, 0, 1)];
    let response = BlockProofResponse { result: vec![0; 159] };
    assert!(attach_proofs(&mut cells, &response).is_err());
    // The cells are left untouched: no truncated proof was attached.
    assert!(cells[0].proof.is_empty() && cells[1].proof.is_empty());
}

#[test]
fn matching_proof_blob_attaches() {
    let mut cells = vec![cell(1, 0, 0)];
    let response = BlockProofResponse { result: vec![7; 80] };
    assert!(attach_proofs(&mut cells, &response).is_ok());
    assert_eq!(cells[0].proof, vec![7; 80]);
}

#[test]
fn driver_counts_accepted_cells() {
    let cells: Vec<Cell> = (0..4).map(|i| cell_with_proof(1, 0, i, i as u8)).collect();
    let commitment = vec![1, 2, 3];
    let verdicts = vec![true, false, true, true];
    assert_eq!(verify_proof(1, 4, &cells, &commitment, &verdicts), Ok(3));
}

#[test]
fn driver_count_is_order_independent() {
    let cells: Vec<Cell> = (0..4).map(|i| cell_with_proof(1, 0, i, 0)).collect();
    let commitment = vec![9];
    for verdicts in [
        vec![true, true, true, false],
        vec![false, true, true, true],
        vec![true, false, true, true],
        vec![true, true, false, true],
    ] {
        assert_eq!(verify_proof(1, 4, &cells, &commitment, &verdicts), Ok(3));
    }
}

#[test]
fn driver_rejects_empty_commitment() {
    let cells = vec![cell_with_proof(1, 0, 0, 0)];
    let verdicts = vec![true];
    assert_eq!(
        verify_proof(1, 1, &cells, &Vec::new(), &verdicts),
        Err(VerificationError::EmptyCommitment)
    );
}

#[test]
fn driver_rejects_cell_without_proof() {
    let cells = vec![cell(1, 0, 0)];
    let verdicts = vec![true];
    assert_eq!(
        verify_proof(1, 1, &cells, &vec![1], &verdicts),
        Err(VerificationError::MalformedCell)
    );
}

#[test]
fn driver_rejects_out_of_bounds_cell() {
    let cells = vec![cell_with_proof(1, 5, 0, 0)];
    let verdicts = vec![true];
    assert_eq!(
        verify_proof(4, 4, &cells, &vec![1], &verdicts),
        Err(VerificationError::MalformedCell)
    );
}

#[test]
fn driver_rejects_verdict_count_mismatch() {
    let cells = vec![cell_with_proof(1, 0, 0, 0)];
    let verdicts = vec![true, false];
    assert_eq!(
        verify_proof(1, 1, &cells, &vec![1], &verdicts),
        Err(VerificationError::VerdictCountMismatch)
    );
}

#[test]
fn verdict_tally_counts_trues() {
    assert_eq!(count_verified(&vec![]), 0);
    assert_eq!(count_verified(&vec![false, false]), 0);
    assert_eq!(count_verified(&vec![true, false, true]), 2);
}

#[test]
fn store_is_last_write_wins() {
    let mut store = Store::new();
    store.set(5, 3);
    store.set(5, 7);
    assert_eq!(store.get(5), Some(7));
}

#[test]
fn store_absent_key_reads_none() {
    let store = Store::new();
    assert_eq!(store.get(5), None);
}

#[test]
fn route_extracts_block_number() {
    assert_eq!(match_url("/v1/confidence/100"), Ok(100));
    assert_eq!(match_url("/v1/confidence/0"), Ok(0));
    assert_eq!(match_url("/v1/confidence/18446744073709551615"), Ok(u64::MAX));
}

#[test]
fn route_rejects_other_paths() {
    assert_eq!(match_url("/v1/confidence/"), Err(RouteError::NoMatch));
    assert_eq!(match_url("/v1/confidence/12a"), Err(RouteError::NoMatch));
    assert_eq!(match_url("/v2/confidence/12"), Err(RouteError::NoMatch));
    assert_eq!(match_url("/other"), Err(RouteError::NoMatch));
    assert_eq!(match_url(""), Err(RouteError::NoMatch));
}

#[test]
fn route_rejects_overflowing_block_number() {
    assert_eq!(
        match_url("/v1/confidence/18446744073709551616"),
        Err(RouteError::BlockOutOfRange)
    );
}

#[test]
fn payload_renders_the_fetch_request() {
    let cells = vec![cell(100, 0, 1), cell(100, 2, 3)];
    let payload = generate_kate_query_payload(100, &cells);
    let expected = "{\"id\": 1, \"jsonrpc\": \"2.0\", \"method\": \"kate_queryProof\", \"params\": [\"100\", [{\"row\": 0, \"col\": 1}, {\"row\": 2, \"col\": 3}]]}";
    assert_eq!(payload, expected);
}

#[test]
fn plan_uses_random_strategy_without_app_index() {
    let h = header("0x64", 4, 4, Vec::new(), 0);
    let plan = plan_sampling(&h).unwrap();
    assert_eq!(plan.block, 100);
    assert_eq!(plan.cells.len(), 8);
    for c in &plan.cells {
        assert!(c.row < 4 && c.col < 4);
        assert_eq!(c.block, 100);
    }
}

#[test]
fn plan_uses_app_strategy_with_app_index() {
    let h = header("0x10", 4, 4, vec![(7, 5)], 3);
    let plan = plan_sampling(&h).unwrap();
    assert_eq!(plan.block, 16);
    assert_eq!(plan.cells.len(), 3);
    assert_eq!((plan.cells[0].row, plan.cells[0].col), (1, 1));
    assert_eq!((plan.cells[2].row, plan.cells[2].col), (1, 3));
}

#[test]
fn plan_rejects_unparsable_number() {
    let h = header("zz", 4, 4, Vec::new(), 0);
    assert!(matches!(plan_sampling(&h), Err(HeaderError::UnparsableNumber)));
}

#[test]
fn plan_rejects_empty_matrix() {
    let h = header("0x64", 0, 4, Vec::new(), 0);
    assert!(matches!(plan_sampling(&h), Err(HeaderError::EmptyMatrix)));
}

#[test]
fn plan_rejects_oversized_app_region() {
    let h = header("0x64", 4, 4, vec![(7, 1)], 70000);
    assert!(matches!(plan_sampling(&h), Err(HeaderError::AppRegionTooLarge)));
}

#[test]
fn verified_block_serves_confidence_end_to_end() {
    // A header for block 100 with a 4x4 matrix and no app-data index.
    let h = header("0x64", 4, 4, Vec::new(), 0);
    let plan = plan_sampling(&h).unwrap();
    assert_eq!(plan.block, 100);
    assert_eq!(plan.cells.len(), 8);

    // The fetch returns 80 bytes per cell, in request order.
    let mut cells = plan.cells;
    let response = BlockProofResponse { result: vec![0xAB; 80 * 8] };
    attach_proofs(&mut cells, &response).unwrap();

    // All eight primitive checks succeed.
    let verdicts = vec![true; 8];
    let count =
        verify_proof(4, 4, &cells, &h.extrinsics_root.commitment, &verdicts).unwrap();
    assert_eq!(count, 8);

    // Recording and serving: confidence 99.609375% as a scaled factor.
    let mut store = Store::new();
    let reply = respond_after_verification(&mut store, 100, count);
    assert_eq!(reply.block, 100);
    assert_eq!(reply.count, 8);
    assert_eq!(reply.factor, 996_093_750);
    assert_eq!(reply.serialised, "430492823350");

    // The query endpoint now answers from the cache with the same values.
    let cached = respond_from_cache(&store, 100).unwrap();
    assert_eq!(cached.count, 8);
    assert_eq!(cached.factor, 996_093_750);
    assert_eq!(cached.serialised, "430492823350");
}

#[test]
fn unverifiable_block_yields_error_not_zero_confidence() {
    // An unseen block: the cache has nothing.
    let store = Store::new();
    assert!(respond_from_cache(&store, 12345).is_none());

    // The fallback pipeline would now fetch proofs; with the collaborator
    // unreachable there is no blob to attach, so verification never runs
    // and nothing is recorded: the caller reports the failure instead of
    // a fabricated zero-confidence reply.
    let fetched: Option<BlockProofResponse> = None;
    assert!(fetched.is_none());
    assert_eq!(store.get(12345), None);
    assert!(respond_from_cache(&store, 12345).is_none());
}
