use triodion::collection::{
    transform_channel, ByBlock, ByTransaction, Collect, CollectByTransaction,
};
use triodion::datatypes::Datatype;
use triodion::dim::Dim;
use triodion::erc20_wrapper_events::{process_wrapper_events, Erc20WrapperEvents};
use triodion::error::{err, R};
use triodion::log::Log;
use triodion::rpc_params::Params;
use triodion::schema::{Query, Schemas, Table};
use triodion::signatures::{
    DEPOSIT_SIGNATURE_HASH, TRANSFER_SIGNATURE_HASH, WITHDRAWAL_SIGNATURE_HASH,
};

const COLUMNS: [&str; 9] = [
    "block_number",
    "block_hash",
    "transaction_index",
    "log_index",
    "transaction_hash",
    "erc20",
    "event_type",
    "account",
    "value",
];

fn table(columns: &[&str]) -> Table {
    Table { columns: columns.iter().map(|name| name.to_string()).collect() }
}

fn event(signature: [u8; 32], data: Vec<u8>) -> Log {
    let mut account = [0u8; 32];
    for (i, byte) in account.iter_mut().enumerate() {
        *byte = i as u8;
    }
    Log {
        address: [0x77; 20],
        topics: vec![signature, account],
        data,
        block_hash: Some([0x55; 32]),
        block_number: Some(0x1_0000_0007),
        transaction_hash: Some([0x66; 32]),
        transaction_index: Some(3),
        log_index: Some(9),
    }
}

fn word(low: u64) -> Vec<u8> {
    let mut word = vec![0u8; 24];
    word.extend(low.to_be_bytes());
    word
}

#[test]
fn events_become_rows() {
    let logs = vec![
        event(DEPOSIT_SIGNATURE_HASH, word(258)),
        event(TRANSFER_SIGNATURE_HASH, word(1)),
        event(WITHDRAWAL_SIGNATURE_HASH, vec![0xff; 32]),
    ];
    let mut columns = Erc20WrapperEvents::default();
    process_wrapper_events(&logs, &mut columns, &table(&COLUMNS));
    assert_eq!(columns.n_rows, 2);
    assert_eq!(columns.block_number, vec![7, 7]);
    assert_eq!(columns.block_hash, vec![Some(vec![0x55; 32]); 2]);
    assert_eq!(columns.transaction_index, vec![3, 3]);
    assert_eq!(columns.log_index, vec![9, 9]);
    assert_eq!(columns.transaction_hash, vec![vec![0x66; 32]; 2]);
    assert_eq!(columns.erc20, vec![vec![0x77; 20]; 2]);
    assert_eq!(columns.event_type, vec!["deposit", "withdrawal"]);
    let account: Vec<u8> = (12..32).collect();
    assert_eq!(columns.account, vec![account.clone(), account]);
    assert_eq!(columns.value[0].limbs, [258, 0, 0, 0]);
    assert_eq!(columns.value[1].limbs, [u64::MAX; 4]);
    assert!(columns.chain_id.is_empty());
}

#[test]
fn logs_without_a_position_are_skipped() {
    let mut pending = event(DEPOSIT_SIGNATURE_HASH, word(1));
    pending.log_index = None;
    let mut columns = Erc20WrapperEvents::default();
    process_wrapper_events(&vec![pending], &mut columns, &table(&COLUMNS));
    assert_eq!(columns.n_rows, 0);
    assert!(columns.block_number.is_empty());
}

#[test]
fn only_columns_of_the_schema_are_stored() {
    let logs = vec![event(DEPOSIT_SIGNATURE_HASH, word(1))];
    let mut columns = Erc20WrapperEvents::default();
    process_wrapper_events(&logs, &mut columns, &table(&["value"]));
    assert_eq!(columns.n_rows, 1);
    assert_eq!(columns.value.len(), 1);
    assert!(columns.block_number.is_empty() && columns.account.is_empty());
}

#[test]
fn parts_of_columns_that_are_not_stored_may_be_missing() {
    let mut odd = event(DEPOSIT_SIGNATURE_HASH, vec![0; 40]);
    odd.topics.pop();
    let mut columns = Erc20WrapperEvents::default();
    process_wrapper_events(&vec![odd], &mut columns, &table(&["event_type"]));
    assert_eq!(columns.event_type, vec!["deposit"]);
}

#[test]
fn rows_accumulate_over_responses() {
    let one = event(DEPOSIT_SIGNATURE_HASH, word(1));
    let two = event(WITHDRAWAL_SIGNATURE_HASH, word(2));
    let schema = table(&COLUMNS);
    let mut in_turn = Erc20WrapperEvents::default();
    process_wrapper_events(&vec![one.clone()], &mut in_turn, &schema);
    process_wrapper_events(&vec![two.clone()], &mut in_turn, &schema);
    let mut at_once = Erc20WrapperEvents::default();
    process_wrapper_events(&vec![one, two], &mut at_once, &schema);
    assert_eq!(in_turn.n_rows, at_once.n_rows);
    assert_eq!(in_turn.event_type, at_once.event_type);
}

#[test]
fn block_filter_asks_for_both_events_of_one_account() {
    let params = Params {
        block_range: Some((1, 2)),
        address: Some(vec![7; 20]),
        topic1: Some(vec![8; 32]),
        topic2: Some(vec![9; 32]),
        ..Default::default()
    };
    let filter = Erc20WrapperEvents::block_log_filter(&params).unwrap();
    assert_eq!((filter.from_block, filter.to_block), (1, 2));
    assert_eq!(filter.address, vec![[7; 20]]);
    assert_eq!(
        filter.topics,
        [
            vec![DEPOSIT_SIGNATURE_HASH, WITHDRAWAL_SIGNATURE_HASH],
            vec![[8; 32]],
            vec![],
            vec![],
        ]
    );
}

#[test]
fn block_filter_reports_malformed_parameters() {
    let params = Params { topic1: Some(vec![8; 5]), ..Default::default() };
    let error = Erc20WrapperEvents::block_log_filter(&params).unwrap_err();
    assert_eq!(error.message(), "topic1 must be 32 bytes, got 5");
    let error = Erc20WrapperEvents::block_log_filter(&Params::default()).unwrap_err();
    assert_eq!(error.message(), "block_range not specified");
}

#[test]
fn responses_keep_the_right_logs() {
    let logs = vec![
        event(DEPOSIT_SIGNATURE_HASH, word(1)),
        event(DEPOSIT_SIGNATURE_HASH, vec![0; 33]),
        event(TRANSFER_SIGNATURE_HASH, word(1)),
    ];
    // the filter has already selected the signature
    assert_eq!(Erc20WrapperEvents::block_response(&logs).len(), 2);
    assert_eq!(Erc20WrapperEvents::transaction_response(&logs).len(), 1);
}

#[test]
fn dataset_parameters() {
    assert_eq!(Erc20WrapperEvents::aliases(), vec!["wrapper_events", "weth_events"]);
    assert_eq!(
        Erc20WrapperEvents::default_columns().unwrap(),
        vec![
            "block_number",
            "transaction_index",
            "log_index",
            "transaction_hash",
            "erc20",
            "event_type",
            "account",
            "value",
            "chain_id",
        ]
    );
    assert_eq!(Erc20WrapperEvents::optional_parameters(), vec![Dim::Address, Dim::Topic1]);
    assert!(Erc20WrapperEvents::use_block_ranges());
    assert_eq!(Erc20WrapperEvents::default_inner_request_size(), 50);
    assert_eq!(
        Erc20WrapperEvents::arg_aliases().unwrap(),
        vec![(Dim::Contract, Dim::Address)]
    );
    assert!(Erc20WrapperEvents::can_collect_by_transaction());
}

#[test]
fn transform_needs_a_schema() {
    let mut query = Query {
        schemas: Schemas::new(),
        multicall: false,
        multicall_batch_size: 0,
        multicall_require_success: false,
    };
    let mut columns = Erc20WrapperEvents::default();
    let error = <Erc20WrapperEvents as Collect<ByBlock>>::transform(vec![], &mut columns, &query)
        .unwrap_err();
    assert_eq!(error.message(), "schema for erc20_wrapper_events missing");
    query.schemas.insert(Datatype::Erc20WrapperEvents, table(&COLUMNS));
    <Erc20WrapperEvents as Collect<ByTransaction>>::transform(
        vec![event(DEPOSIT_SIGNATURE_HASH, word(1))],
        &mut columns,
        &query,
    )
    .unwrap();
    assert_eq!(columns.n_rows, 1);
}

#[test]
fn messages_after_an_error_are_not_transformed() {
    let mut schemas = Schemas::new();
    schemas.insert(Datatype::Erc20WrapperEvents, table(&COLUMNS));
    let query = Query {
        schemas,
        multicall: false,
        multicall_batch_size: 0,
        multicall_require_success: false,
    };
    // a log that no row can be made of
    let mut odd = event(DEPOSIT_SIGNATURE_HASH, vec![0; 40]);
    odd.topics.pop();
    let messages: Vec<R<Vec<Log>>> = vec![Ok(vec![]), Err(err("boom")), Ok(vec![odd])];
    let error =
        transform_channel::<Erc20WrapperEvents, ByTransaction>(messages, &query).unwrap_err();
    assert_eq!(error.message(), "boom");
}
