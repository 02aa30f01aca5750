use triodion::collection::{ByBlock, ByTransaction, Collect, CollectByTransaction};
use triodion::datatypes::Datatype;
use triodion::dim::Dim;
use triodion::erc20_supplies::{Erc20Supplies, SupplyReply, SupplyRow};
use triodion::multicall::CallResult;
use triodion::rpc_params::Params;
use triodion::schema::{Query, Schemas, Table};

fn token(block: u64) -> Params {
    Params { block_number: Some(block), address: Some(vec![7; 20]), ..Default::default() }
}

fn word(low: u64) -> Vec<u8> {
    let mut word = vec![0u8; 24];
    word.extend(low.to_be_bytes());
    word
}

fn limbs(row: &SupplyRow) -> Option<[u64; 4]> {
    row.total_supply.map(|supply| supply.limbs)
}

fn query() -> Query {
    let mut schemas = Schemas::new();
    let columns = ["block_number", "erc20", "total_supply"];
    schemas.insert(
        Datatype::Erc20Supplies,
        Table { columns: columns.iter().map(|name| name.to_string()).collect() },
    );
    Query { schemas, multicall: true, multicall_batch_size: 0, multicall_require_success: false }
}

#[test]
fn direct_call_carries_the_address_after_the_selector() {
    let call = Erc20Supplies::supply_call(&token(9)).unwrap();
    assert_eq!(call.to, [7; 20]);
    assert_eq!(call.block, 9);
    assert_eq!(call.data[..4], [0x18, 0x16, 0x0d, 0xdd]);
    assert_eq!(call.data[4..], [7; 20]);
    let row = Erc20Supplies::supply_row(&call, Some(word(1000)));
    assert_eq!((row.block_number, row.erc20.clone()), (9, vec![7; 20]));
    assert_eq!(limbs(&row), Some([1000, 0, 0, 0]));
    assert_eq!(limbs(&Erc20Supplies::supply_row(&call, None)), None);
    assert_eq!(limbs(&Erc20Supplies::supply_row(&call, Some(vec![]))), Some([0; 4]));
}

#[test]
fn direct_call_reports_what_is_wrong() {
    let mut params = token(9);
    params.address = Some(vec![7; 4]);
    let message = |params: &Params| {
        Erc20Supplies::supply_call(params).unwrap_err().message().to_string()
    };
    assert_eq!(message(&params), "address must be 20 bytes, got 4");
    params.block_number = None;
    assert_eq!(message(&params), "block_number not specified");
    params.address = None;
    assert_eq!(message(&params), "address not specified");
}

#[test]
fn batched_call_is_the_selector_alone() {
    let calls = Erc20Supplies::calls_for_row(&token(9), true).unwrap();
    assert_eq!(calls.len(), 1);
    assert_eq!(calls[0].target, [7; 20]);
    assert!(!calls[0].allow_failure);
    assert_eq!(calls[0].call_data, vec![0x18, 0x16, 0x0d, 0xdd]);
    assert!(Erc20Supplies::calls_for_row(&token(9), false).unwrap()[0].allow_failure);
    let mut params = token(9);
    params.address = Some(vec![7; 21]);
    let error = Erc20Supplies::calls_for_row(&params, true).unwrap_err();
    assert_eq!(error.message(), "address must be 20 bytes, got 21");
    let error = Erc20Supplies::calls_for_row(&Params::default(), true).unwrap_err();
    assert_eq!(error.message(), "address not specified");
}

#[test]
fn batched_outcomes_are_decoded() {
    let decode = |success: bool, return_data: Vec<u8>| {
        Erc20Supplies::decode_row(&token(9), &[CallResult { success, return_data }]).unwrap()
    };
    let row = decode(true, word(5));
    assert_eq!((row.block_number, row.erc20.clone()), (9, vec![7; 20]));
    assert_eq!(limbs(&row), Some([5, 0, 0, 0]));
    assert_eq!(limbs(&decode(false, word(5))), None);
    assert_eq!(limbs(&decode(true, vec![1; 31])), None);
    let mut long = word(5);
    long.extend(vec![0xff; 32]);
    assert_eq!(limbs(&decode(true, long)), Some([5, 0, 0, 0]));
}

#[test]
fn batched_outcomes_need_a_place() {
    let outcome = || [CallResult { success: true, return_data: word(5) }];
    let error = Erc20Supplies::decode_row(&Params::default(), &outcome()).unwrap_err();
    assert_eq!(error.message(), "block_number not specified");
    let params = Params { block_number: Some(1), ..Default::default() };
    let error = Erc20Supplies::decode_row(&params, &outcome()).unwrap_err();
    assert_eq!(error.message(), "address not specified");
}

#[test]
fn batched_row_is_the_direct_row() {
    let call = Erc20Supplies::supply_call(&token(9)).unwrap();
    let direct = Erc20Supplies::supply_row(&call, Some(word(77)));
    let outcome = CallResult { success: true, return_data: word(77) };
    let batched = Erc20Supplies::decode_row(&token(9), &[outcome]).unwrap();
    assert_eq!(direct.block_number, batched.block_number);
    assert_eq!(direct.erc20, batched.erc20);
    assert_eq!(limbs(&direct), limbs(&batched));
}

#[test]
fn supplies_become_rows() {
    let mut columns = Erc20Supplies::default();
    let call = Erc20Supplies::supply_call(&token(9)).unwrap();
    for output in [Some(word(3)), None] {
        let row = Erc20Supplies::supply_row(&call, output);
        <Erc20Supplies as Collect<ByBlock>>::transform(row, &mut columns, &query()).unwrap();
    }
    assert_eq!(columns.n_rows, 2);
    assert_eq!(columns.block_number, vec![9, 9]);
    assert_eq!(columns.erc20, vec![vec![7; 20]; 2]);
    assert_eq!(columns.total_supply[0].unwrap().limbs, [3, 0, 0, 0]);
    assert!(columns.total_supply[1].is_none());
}

#[test]
fn supplies_need_a_schema_and_blocks() {
    let mut columns = Erc20Supplies::default();
    let unrequested = Query { schemas: Schemas::new(), ..query() };
    let call = Erc20Supplies::supply_call(&token(9)).unwrap();
    let row = Erc20Supplies::supply_row(&call, None);
    let error =
        <Erc20Supplies as Collect<ByBlock>>::transform(row, &mut columns, &unrequested)
            .unwrap_err();
    assert_eq!(error.message(), "schema for erc20_supplies missing");
    let error = <Erc20Supplies as Collect<ByTransaction>>::transform((), &mut columns, &query())
        .unwrap_err();
    assert_eq!(error.message(), "CollectByTransaction not implemented");
    assert!(!Erc20Supplies::can_collect_by_transaction());
}

#[test]
fn supply_dataset_parameters() {
    assert_eq!(Erc20Supplies::default_sort().unwrap(), vec!["erc20", "block_number"]);
    assert_eq!(Erc20Supplies::required_parameters(), vec![Dim::Address]);
    assert_eq!(Erc20Supplies::arg_aliases().unwrap(), vec![(Dim::Contract, Dim::Address)]);
    assert_eq!(Erc20Supplies::default_blocks().unwrap(), "latest");
}

#[test]
fn amounts_are_read_most_significant_first() {
    let call = Erc20Supplies::supply_call(&token(9)).unwrap();
    let read = |data: Vec<u8>| limbs(&Erc20Supplies::supply_row(&call, Some(data))).unwrap();
    assert_eq!(read(vec![1, 2]), [258, 0, 0, 0]);
    let mut word = vec![0u8; 32];
    word[0] = 0x80;
    word[31] = 1;
    assert_eq!(read(word), [1, 0, 0, 1 << 63]);
}

fn outcome(success: bool, low: u64) -> CallResult {
    CallResult { success, return_data: word(low) }
}

fn supplies(rows: &[SupplyRow]) -> Vec<Option<u64>> {
    rows.iter().map(|row| limbs(row).map(|limbs| limbs[0])).collect()
}

#[test]
fn supply_request_encodes_the_batch() {
    let data = Erc20Supplies::supply_request(&vec![token(9), token(9)], false).unwrap();
    assert_eq!(data[..4], [0x82, 0xad, 0x56, 0xcb]);
    // the array holds two calls
    assert_eq!(data[4 + 32..4 + 64], word(2));
    let error = Erc20Supplies::supply_request(&vec![Params::default()], false).unwrap_err();
    assert_eq!(error.message(), "address not specified");
}

#[test]
fn supply_rows_belong_to_their_calls() {
    let batch = vec![token(8), token(9)];
    let rows = Erc20Supplies::supply_rows(&batch, &vec![outcome(true, 1), outcome(false, 2)])
        .unwrap();
    assert_eq!(supplies(&rows), vec![Some(1), None]);
    assert_eq!(rows[1].block_number, 9);
    let error = Erc20Supplies::supply_rows(&batch, &vec![outcome(true, 1)]).unwrap_err();
    assert_eq!(error.message(), "multicall returned 1 results for a 2 call batch");
}

#[test]
fn supplies_fall_back_to_direct_calls() {
    let batch = vec![token(8), token(9)];
    for reply in [
        SupplyReply::Failed,
        SupplyReply::Reverted,
        SupplyReply::Outcomes(vec![outcome(true, 1)]),
    ] {
        assert!(Erc20Supplies::aggregated_rows(&batch, &reply, false).unwrap().is_none());
    }
    assert!(Erc20Supplies::aggregated_rows(&batch, &SupplyReply::Failed, true)
        .unwrap()
        .is_none());
    let reply = SupplyReply::Outcomes(vec![outcome(true, 1), outcome(false, 2)]);
    let rows = Erc20Supplies::aggregated_rows(&batch, &reply, false).unwrap().unwrap();
    assert_eq!(supplies(&rows), vec![Some(1), None]);
    let rows = Erc20Supplies::direct_rows(&batch, vec![Some(word(3)), None], false).unwrap();
    assert_eq!(supplies(&rows), vec![Some(3), None]);
}

#[test]
fn required_success_fails_all_supplies_of_a_batch() {
    let batch = vec![token(8), token(9)];
    for reply in [
        SupplyReply::Reverted,
        SupplyReply::Outcomes(vec![outcome(true, 1), outcome(false, 2)]),
    ] {
        let rows = Erc20Supplies::aggregated_rows(&batch, &reply, true).unwrap().unwrap();
        assert_eq!(supplies(&rows), vec![None, None]);
    }
    let rows = Erc20Supplies::direct_rows(&batch, vec![Some(word(3)), None], true).unwrap();
    assert_eq!(supplies(&rows), vec![None, None]);
    let rows =
        Erc20Supplies::direct_rows(&batch, vec![Some(word(3)), Some(word(4))], true).unwrap();
    assert_eq!(supplies(&rows), vec![Some(3), Some(4)]);
}

#[test]
fn failed_supplies_keep_their_place() {
    let rows = Erc20Supplies::failed_rows(&vec![token(8), token(9)]).unwrap();
    assert_eq!(supplies(&rows), vec![None, None]);
    assert_eq!((rows[0].block_number, rows[1].block_number), (8, 9));
    let error = Erc20Supplies::failed_rows(&vec![Params::default()]).unwrap_err();
    assert_eq!(error.message(), "address not specified");
}
