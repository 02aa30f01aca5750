use alloy::primitives::{keccak256, Bytes};
use alloy::sol_types::{sol_data, SolType};
use triodion::batch_run::{BatchReply, BatchRun, BatchStep};
use triodion::call_plan::plan_calls;
use triodion::collection::{
    transform_channel, ByBlock, ByTransaction, Collect, CollectByTransaction,
};
use triodion::datatypes::Datatype;
use triodion::dim::Dim;
use triodion::error::{err, R};
use triodion::eth_calls::{
    batch_calls, batch_rows, multicall_request, multicall_rows, process_eth_call, single_eth_call,
    store_eth_call, EthCallRow, EthCalls,
};
use triodion::multicall::{
    aggregate3_returns, multicall3_deploy_block, outcomes_or_error, with_selector, CallResult,
    DEFAULT_MULTICALL_BATCH_SIZE, MULTICALL3_ADDRESS,
};
use triodion::rpc_params::Params;
use triodion::schema::{Query, Schemas, Table};

type Outcomes = (sol_data::Array<(sol_data::Bool, sol_data::Bytes)>,);
type Calls = (sol_data::Array<(sol_data::Address, sol_data::Bool, sol_data::Bytes)>,);

const COLUMNS: [&str; 6] = [
    "block_number",
    "contract_address",
    "call_data",
    "call_data_hash",
    "output_data",
    "output_data_hash",
];

fn table(columns: &[&str]) -> Table {
    Table { columns: columns.iter().map(|name| name.to_string()).collect() }
}

fn query(multicall: bool, batch_size: u32) -> Query {
    let mut schemas = Schemas::new();
    schemas.insert(Datatype::EthCalls, table(&COLUMNS));
    Query {
        schemas,
        multicall,
        multicall_batch_size: batch_size,
        multicall_require_success: false,
    }
}

/// a call that is told apart by one byte
fn call(block: u64, byte: u8) -> Params {
    Params {
        block_number: Some(block),
        contract: Some(vec![byte; 20]),
        call_data: Some(vec![byte, 1]),
        ..Default::default()
    }
}

fn reply(outcomes: Vec<(bool, Vec<u8>)>) -> Vec<u8> {
    let outcomes: Vec<(bool, Bytes)> =
        outcomes.into_iter().map(|(success, data)| (success, data.into())).collect();
    Outcomes::abi_encode_sequence(&(outcomes,))
}

fn bytes_of(calls: &[Params]) -> Vec<u8> {
    calls.iter().map(|call| call.contract.as_ref().unwrap()[0]).collect()
}

#[test]
fn single_call_is_described_by_its_parameters() {
    let request = single_eth_call(&call(0x1_0000_0005, 7)).unwrap();
    assert_eq!(request.to, [7; 20]);
    assert_eq!(request.data, vec![7, 1]);
    assert_eq!(request.block, 0x1_0000_0005);
    let row = request.answered(Some(vec![1, 2, 3]));
    assert_eq!(row.block_number, 5);
    assert_eq!(row.contract_address, vec![7; 20]);
    assert_eq!(row.call_data, vec![7, 1]);
    assert_eq!(row.output_data, Some(vec![1, 2, 3]));
}

#[test]
fn single_call_reports_what_is_wrong() {
    let mut params = call(1, 7);
    params.block_number = None;
    assert_eq!(single_eth_call(&params).unwrap_err().message(), "block_number not specified");
    params.call_data = None;
    assert_eq!(single_eth_call(&params).unwrap_err().message(), "call_data not specified");
    params.contract = Some(vec![7; 3]);
    assert_eq!(single_eth_call(&params).unwrap_err().message(), "contract must be 20 bytes, got 3");
    params.contract = None;
    assert_eq!(single_eth_call(&params).unwrap_err().message(), "contract not specified");
}

#[test]
fn rows_are_stored_with_their_hashes() {
    let mut columns = EthCalls::default();
    let schema = table(&COLUMNS);
    let answered = single_eth_call(&call(5, 7)).unwrap().answered(Some(b"abc".to_vec()));
    process_eth_call(answered, &mut columns, &schema);
    let failed = single_eth_call(&call(6, 8)).unwrap().answered(None);
    process_eth_call(failed, &mut columns, &schema);
    assert_eq!(columns.n_rows, 2);
    assert_eq!(columns.block_number, vec![5, 6]);
    assert_eq!(columns.contract_address, vec![vec![7; 20], vec![8; 20]]);
    assert_eq!(columns.call_data, vec![vec![7, 1], vec![8, 1]]);
    assert_eq!(columns.call_data_hash[0], keccak256([7, 1]).to_vec());
    assert_eq!(columns.output_data, vec![Some(b"abc".to_vec()), None]);
    assert_eq!(
        columns.output_data_hash[0],
        Some(vec![
            0x4e, 0x03, 0x65, 0x7a, 0xea, 0x45, 0xa9, 0x4f, 0xc7, 0xd4, 0x7b, 0xa8, 0x26, 0xc8,
            0xd6, 0x67, 0xc0, 0xd1, 0xe6, 0xe3, 0x3a, 0x64, 0xa0, 0x36, 0xec, 0x44, 0xf5, 0x8f,
            0xa1, 0x2d, 0x6c, 0x45,
        ])
    );
    assert_eq!(columns.output_data_hash[1], None);
    assert!(columns.chain_id.is_empty());
}

#[test]
fn hashes_are_stored_as_given() {
    let mut columns = EthCalls::default();
    let row = EthCallRow {
        block_number: 1,
        contract_address: vec![2],
        call_data: vec![3],
        output_data: None,
    };
    store_eth_call(row, vec![4], Some(vec![5]), &mut columns, &table(&["call_data_hash"]));
    assert_eq!(columns.n_rows, 1);
    assert_eq!(columns.call_data_hash, vec![vec![4]]);
    assert!(columns.output_data_hash.is_empty());
}

#[test]
fn columns_hold_the_calls_in_order() {
    let rows: Vec<R<EthCallRow>> = (1..4u8)
        .map(|byte| Ok(single_eth_call(&call(byte as u64, byte)).unwrap().answered(None)))
        .collect();
    let columns: EthCalls =
        transform_channel::<EthCalls, ByBlock>(rows, &query(false, 0)).unwrap();
    assert_eq!(columns.block_number, vec![1, 2, 3]);
    assert_eq!(columns.call_data, vec![vec![1, 1], vec![2, 1], vec![3, 1]]);
    let broken: Vec<R<EthCallRow>> = vec![Err(err("no answer"))];
    let error = transform_channel::<EthCalls, ByBlock>(broken, &query(false, 0)).unwrap_err();
    assert_eq!(error.message(), "no answer");
}

#[test]
fn calls_are_not_collected_by_transaction() {
    assert!(!EthCalls::can_collect_by_transaction());
    let mut columns = EthCalls::default();
    let error =
        <EthCalls as Collect<ByTransaction>>::transform((), &mut columns, &query(false, 0))
            .unwrap_err();
    assert_eq!(error.message(), "CollectByTransaction not implemented");
}

#[test]
fn call_dataset_parameters() {
    assert_eq!(
        EthCalls::default_columns().unwrap(),
        vec!["block_number", "contract_address", "call_data", "output_data", "chain_id"]
    );
    assert_eq!(EthCalls::default_sort().unwrap(), vec!["block_number", "contract_address"]);
    assert_eq!(EthCalls::default_blocks().unwrap(), "latest");
    assert_eq!(
        EthCalls::arg_aliases().unwrap(),
        vec![(Dim::Address, Dim::Contract), (Dim::ToAddress, Dim::Contract)]
    );
    assert_eq!(EthCalls::required_parameters(), vec![Dim::Contract, Dim::CallData]);
}

#[test]
fn multicall_is_deployed_on_verified_chains() {
    assert_eq!(multicall3_deploy_block(1), Some(14_353_601));
    assert_eq!(multicall3_deploy_block(10), Some(4_286_263));
    assert_eq!(multicall3_deploy_block(56), Some(15_921_452));
    assert_eq!(multicall3_deploy_block(100), Some(21_022_491));
    assert_eq!(multicall3_deploy_block(137), Some(25_770_160));
    assert_eq!(multicall3_deploy_block(8_453), Some(5_022));
    assert_eq!(multicall3_deploy_block(42_161), Some(7_654_707));
    assert_eq!(multicall3_deploy_block(43_114), Some(11_907_934));
    assert_eq!(multicall3_deploy_block(2), None);
    assert_eq!(DEFAULT_MULTICALL_BATCH_SIZE, 150);
    assert_eq!(
        alloy::primitives::Address::from(MULTICALL3_ADDRESS),
        "0xcA11bde05977b3631167028862bE2a173976CA11"
            .parse::<alloy::primitives::Address>()
            .unwrap()
    );
}

#[test]
fn batch_request_encodes_the_calls() {
    let data = multicall_request(&vec![call(5, 7), call(5, 8)], false).unwrap();
    assert_eq!(data[..4], [0x82, 0xad, 0x56, 0xcb]);
    let (calls,) = Calls::abi_decode_sequence(&data[4..]).unwrap();
    assert_eq!(calls.len(), 2);
    assert_eq!(calls[0].0 .0, [7; 20]);
    assert!(calls[0].1);
    assert_eq!(calls[1].2.to_vec(), vec![8, 1]);
    let data = multicall_request(&vec![call(5, 7)], true).unwrap();
    let (calls,) = Calls::abi_decode_sequence(&data[4..]).unwrap();
    assert!(!calls[0].1);
}

#[test]
fn batch_request_has_the_layout_of_the_abi() {
    let word = |low: u8| {
        let mut word = [0u8; 32];
        word[31] = low;
        word
    };
    let mut expected = vec![0x82, 0xad, 0x56, 0xcb];
    // one array of one triple, whose data come after its three words
    expected.extend(word(0x20));
    expected.extend(word(1));
    expected.extend(word(0x20));
    expected.extend([0; 12]);
    expected.extend([7; 20]);
    expected.extend(word(1));
    expected.extend(word(0x60));
    expected.extend(word(2));
    expected.extend([7, 1]);
    expected.extend([0; 30]);
    assert_eq!(multicall_request(&vec![call(5, 7)], false).unwrap(), expected);
}

#[test]
fn batch_request_reports_what_is_wrong() {
    let mut broken = call(5, 8);
    broken.contract = Some(vec![1; 19]);
    let error = multicall_request(&vec![call(5, 7), broken], false).unwrap_err();
    assert_eq!(error.message(), "contract must be 20 bytes, got 19");
    let mut missing = call(5, 8);
    missing.call_data = None;
    let error = batch_calls(&vec![missing], false).unwrap_err();
    assert_eq!(error.message(), "call_data not specified");
}

#[test]
fn batch_reply_gives_one_row_per_call() {
    let batch = vec![call(5, 7), call(5, 8)];
    let data = reply(vec![(true, vec![1, 2]), (false, vec![9])]);
    let rows = multicall_rows(&batch, &data).unwrap();
    assert_eq!(rows.len(), 2);
    assert_eq!(rows[0].contract_address, vec![7; 20]);
    assert_eq!(rows[0].output_data, Some(vec![1, 2]));
    assert_eq!(rows[1].block_number, 5);
    assert_eq!(rows[1].output_data, None);
}

#[test]
fn batched_call_row_is_the_direct_row() {
    for output in [Some(vec![1, 2]), None] {
        let outcome = CallResult {
            success: output.is_some(),
            return_data: output.clone().unwrap_or_default(),
        };
        let batched = batch_rows(&vec![call(5, 7)], &vec![outcome]).unwrap();
        let direct = single_eth_call(&call(5, 7)).unwrap().answered(output);
        assert_eq!(batched[0].block_number, direct.block_number);
        assert_eq!(batched[0].contract_address, direct.contract_address);
        assert_eq!(batched[0].call_data, direct.call_data);
        assert_eq!(batched[0].output_data, direct.output_data);
    }
}

#[test]
fn batch_reply_with_another_count_is_an_error() {
    let batch = vec![call(5, 7), call(5, 8)];
    let error = multicall_rows(&batch, &reply(vec![(true, vec![])])).unwrap_err();
    assert_eq!(error.message(), "multicall returned 1 results for a 2 call batch");
    let mut unplaced = call(5, 7);
    unplaced.block_number = None;
    let outcomes = vec![CallResult { success: true, return_data: vec![] }];
    let error = batch_rows(&vec![unplaced], &outcomes).unwrap_err();
    assert_eq!(error.message(), "block_number not specified");
}

#[test]
fn batch_reply_that_does_not_decode_is_an_error() {
    let error = multicall_rows(&vec![call(5, 7)], &[1, 2, 3]).unwrap_err();
    assert!(error.message().starts_with("multicall decode failed: "));
    assert!(error.message().len() > "multicall decode failed: ".len());
    assert!(aggregate3_returns(&reply(vec![(true, vec![4])])).unwrap()[0].success);
    let failed = outcomes_or_error(Err(alloy::sol_types::Error::Overrun)).unwrap_err();
    assert!(failed.message().starts_with("multicall decode failed: "));
    let passed = outcomes_or_error(Ok(vec![])).unwrap();
    assert!(passed.is_empty());
}

#[test]
fn selector_comes_before_the_arguments() {
    assert_eq!(with_selector(&[1, 2, 3, 4], vec![5, 6]), vec![1, 2, 3, 4, 5, 6]);
}

#[test]
fn calls_are_batched_by_block() {
    let calls = vec![
        call(20_000_000, 1),
        call(20_000_001, 2),
        call(1, 3),
        call(20_000_000, 4),
        call(20_000_000, 5),
    ];
    let plan = plan_calls(calls, 1, &query(true, 2));
    assert_eq!(bytes_of(&plan.singles), vec![3]);
    let batches: Vec<(u64, Vec<u8>)> =
        plan.batches.iter().map(|batch| (batch.block, bytes_of(&batch.calls))).collect();
    assert_eq!(
        batches,
        vec![(20_000_000, vec![1, 4]), (20_000_000, vec![5]), (20_000_001, vec![2])]
    );
}

#[test]
fn batches_are_capped_by_the_default_when_no_cap_is_given() {
    let calls: Vec<Params> = (0..151).map(|_| call(20_000_000, 1)).collect();
    let plan = plan_calls(calls, 1, &query(true, 0));
    let sizes: Vec<usize> = plan.batches.iter().map(|batch| batch.calls.len()).collect();
    assert_eq!(sizes, vec![150, 1]);
}

#[test]
fn deployment_block_is_eligible_and_earlier_ones_are_not() {
    let mut unplaced = call(0, 3);
    unplaced.block_number = None;
    let calls = vec![call(5_021, 1), call(5_022, 2), unplaced];
    let plan = plan_calls(calls, 8_453, &query(true, 10));
    assert_eq!(bytes_of(&plan.singles), vec![1, 3]);
    assert_eq!(plan.batches.len(), 1);
    assert_eq!(plan.batches[0].block, 5_022);
}

#[test]
fn unknown_chains_and_disabled_batching_are_per_call() {
    let plan = plan_calls(vec![call(20_000_000, 1)], 2, &query(true, 10));
    assert!(plan.batches.is_empty());
    assert_eq!(plan.singles.len(), 1);
    let plan = plan_calls(vec![call(20_000_000, 1)], 1, &query(false, 10));
    assert!(plan.batches.is_empty());
    assert_eq!(plan.singles.len(), 1);
}

/// Runs a batch against a source where each aggregate that holds one of the
/// `failing` calls fails; counts the requests.
fn run(batch: Vec<Params>, failing: &[u8]) -> (Vec<EthCallRow>, usize) {
    let mut run = BatchRun::start(batch, false);
    let mut requests = 0;
    loop {
        let reply = match run.step() {
            BatchStep::Done => return (run.rows, requests),
            BatchStep::Aggregate(calls) => {
                if bytes_of(calls).iter().any(|byte| failing.contains(byte)) {
                    BatchReply::Failed
                } else {
                    let data =
                        reply(bytes_of(calls).iter().map(|byte| (true, vec![*byte])).collect());
                    BatchReply::Rows(multicall_rows(calls, &data).unwrap())
                }
            }
            BatchStep::Direct(call) => {
                BatchReply::Row(single_eth_call(call).unwrap().answered(None))
            }
        };
        requests += 1;
        run = run.resume(reply).unwrap();
    }
}

#[test]
fn batch_without_failures_needs_one_request() {
    let (rows, requests) = run((0..9).map(|byte| call(5, byte)).collect(), &[]);
    assert_eq!(requests, 1);
    assert_eq!(rows.len(), 9);
}

#[test]
fn failing_call_is_isolated_and_keeps_its_row() {
    let (rows, requests) = run((0..7).map(|byte| call(5, byte)).collect(), &[4]);
    let order: Vec<u8> = rows.iter().map(|row| row.contract_address[0]).collect();
    assert_eq!(order, vec![0, 1, 2, 3, 4, 5, 6]);
    for row in &rows {
        let byte = row.contract_address[0];
        assert_eq!(row.output_data, if byte == 4 { None } else { Some(vec![byte]) });
    }
    assert!(requests <= 3 * 7 - 1);
}

#[test]
fn wholly_failing_batch_still_answers_every_call() {
    let (rows, requests) = run((0..5).map(|byte| call(5, byte)).collect(), &[0, 1, 2, 3, 4]);
    let order: Vec<u8> = rows.iter().map(|row| row.contract_address[0]).collect();
    assert_eq!(order, vec![0, 1, 2, 3, 4]);
    assert!(rows.iter().all(|row| row.output_data.is_none()));
    // nine aggregates and five direct calls
    assert_eq!(requests, 14);
}

#[test]
fn failed_batch_is_halved_with_the_first_half_next() {
    for reply in [BatchReply::Failed, BatchReply::Reverted] {
        halves_with_the_first_half_next(reply);
    }
}

fn halves_with_the_first_half_next(reply: BatchReply) {
    let run = BatchRun::start((0..5).map(|byte| call(5, byte)).collect(), false);
    let run = run.resume(reply).unwrap();
    assert!(matches!(run.step(), BatchStep::Aggregate(calls) if bytes_of(calls) == vec![0, 1]));
    assert_eq!(run.pending.len(), 2);
    assert_eq!(bytes_of(&run.pending[0]), vec![2, 3, 4]);
}

fn assert_wholly_failed(run: BatchRun, calls: u8) {
    assert!(matches!(run.step(), BatchStep::Done));
    let order: Vec<u8> = run.rows.iter().map(|row| row.contract_address[0]).collect();
    assert_eq!(order, (0..calls).collect::<Vec<u8>>());
    assert!(run.rows.iter().all(|row| row.output_data.is_none()));
}

/// answers the next aggregate request of a run with outputs
fn answer(run: BatchRun) -> BatchRun {
    let rows = match run.step() {
        BatchStep::Aggregate(calls) => {
            let outcomes = bytes_of(calls).iter().map(|byte| (true, vec![*byte])).collect();
            multicall_rows(calls, &reply(outcomes)).unwrap()
        }
        _ => panic!("no aggregate request"),
    };
    run.resume(BatchReply::Rows(rows)).unwrap()
}

#[test]
fn required_success_fails_the_whole_batch_on_a_revert() {
    let run = BatchRun::start((0..5).map(|byte| call(5, byte)).collect(), true);
    assert_wholly_failed(run.resume(BatchReply::Reverted).unwrap(), 5);
}

#[test]
fn required_success_takes_back_outputs_of_the_batch() {
    let run = BatchRun::start((0..3).map(|byte| call(5, byte)).collect(), true);
    let run = answer(run.resume(BatchReply::Failed).unwrap());
    assert_eq!(run.rows[0].output_data, Some(vec![0]));
    assert_wholly_failed(run.resume(BatchReply::Reverted).unwrap(), 3);
}

#[test]
fn required_success_fails_the_whole_batch_on_a_failed_direct_call() {
    let run = BatchRun::start((0..2).map(|byte| call(5, byte)).collect(), true);
    let run = answer(run.resume(BatchReply::Failed).unwrap());
    let run = run.resume(BatchReply::Failed).unwrap();
    assert!(matches!(run.step(), BatchStep::Direct(_)));
    let row = single_eth_call(&call(5, 1)).unwrap().answered(None);
    assert_wholly_failed(run.resume(BatchReply::Row(row)).unwrap(), 2);
}

#[test]
fn required_success_fails_the_whole_batch_on_a_row_without_output() {
    let batch: Vec<Params> = (0..2).map(|byte| call(5, byte)).collect();
    let rows = multicall_rows(&batch, &reply(vec![(true, vec![1]), (false, vec![])])).unwrap();
    let run = BatchRun::start(batch, true);
    assert_wholly_failed(run.resume(BatchReply::Rows(rows)).unwrap(), 2);
}

#[test]
fn required_success_keeps_the_outputs_of_a_batch_that_succeeds() {
    let run = answer(BatchRun::start((0..2).map(|byte| call(5, byte)).collect(), true));
    assert!(matches!(run.step(), BatchStep::Done));
    assert_eq!(run.rows[1].output_data, Some(vec![1]));
}

#[test]
fn failed_batch_with_a_malformed_call_is_an_error() {
    let mut broken = call(5, 1);
    broken.contract = Some(vec![1; 19]);
    let run = BatchRun::start(vec![call(5, 0), broken], true);
    let error = run.resume(BatchReply::Reverted).unwrap_err();
    assert_eq!(error.message(), "contract must be 20 bytes, got 19");
}

#[test]
fn columns_are_left_alone_by_an_error() {
    let unrequested = Query { schemas: Schemas::new(), ..query(false, 0) };
    let mut columns = EthCalls::default();
    let row = single_eth_call(&call(5, 1)).unwrap().answered(None);
    let error = <EthCalls as Collect<ByBlock>>::transform(row, &mut columns, &unrequested)
        .unwrap_err();
    assert_eq!(error.message(), "schema for eth_calls missing");
    assert_eq!(columns.n_rows, 0);
}
