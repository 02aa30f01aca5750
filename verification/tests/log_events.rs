use triodion::bytes::B256;
use triodion::collection::{
    transform_channel, ByBlock, ByTransaction, Collect, CollectByTransaction,
};
use triodion::datatypes::Datatype;
use triodion::error::{err, R};
use triodion::filter::Filter;
use triodion::log::{
    is_erc20_approval, is_erc20_transfer, is_erc721_transfer, is_wrapper_event,
    is_wrapper_event_shape, Log,
};
use triodion::log_events::{
    build_union_filter, fan_out_block, fan_out_transaction, matches_erc20_approval,
    matches_erc20_transfer, matches_erc20_wrapper, matches_erc721_transfer, matches_logs,
    topic_matches, LogEvents, MemberRows,
};
use triodion::rpc_params::Params;
use triodion::schema::{Query, Schemas, Table};
use triodion::signatures::{
    APPROVAL_SIGNATURE_HASH, DEPOSIT_SIGNATURE_HASH, TRANSFER_SIGNATURE_HASH,
    WITHDRAWAL_SIGNATURE_HASH,
};

const ZERO: B256 = [0; 32];

/// minimal log with the given topics and `data_len` zero-bytes of data
fn rpc_log(topics: Vec<B256>, data_len: usize) -> Log {
    Log {
        address: [0; 20],
        topics,
        data: vec![0u8; data_len],
        block_hash: None,
        block_number: None,
        transaction_hash: None,
        transaction_index: None,
        log_index: None,
    }
}

/// a log at a known position
fn mined_log(topics: Vec<B256>, data: Vec<u8>) -> Log {
    Log {
        address: [0x77; 20],
        topics,
        data,
        block_hash: Some([0x55; 32]),
        block_number: Some(17),
        transaction_hash: Some([0x66; 32]),
        transaction_index: Some(3),
        log_index: Some(9),
    }
}

fn query(datatypes: &[Datatype]) -> Query {
    let mut schemas = Schemas::new();
    for datatype in datatypes {
        schemas.insert(
            *datatype,
            Table { columns: vec!["account".to_string(), "event_type".to_string()] },
        );
    }
    Query { schemas, multicall: false, multicall_batch_size: 0, multicall_require_success: false }
}

/// what the RPC returns for a filter
fn admitted(filter: &Filter, log: &Log) -> bool {
    (filter.address.is_empty() || filter.address.contains(&log.address))
        && filter.topics.iter().enumerate().all(|(i, words)| {
            words.is_empty() || log.topics.get(i).is_some_and(|topic| words.contains(topic))
        })
}

#[test]
fn raw_logs_filter_drops_foreign_topic0() {
    let x: B256 = [0xab; 32];
    let params = Params { topic0: Some(x.to_vec()), ..Default::default() };

    let x_log = rpc_log(vec![x], 32);
    let transfer_log = rpc_log(vec![TRANSFER_SIGNATURE_HASH, ZERO, ZERO], 32);

    assert!(matches_logs(&x_log, &params), "topic0==X log must be kept");
    assert!(!matches_logs(&transfer_log, &params), "foreign topic0 must be dropped");
}

#[test]
fn raw_logs_filter_unconstrained_keeps_everything() {
    let params = Params::default();
    let any = rpc_log(vec![[0x11; 32]], 0);
    assert!(matches_logs(&any, &params));
}

#[test]
fn erc20_transfer_honors_from_address() {
    let from: B256 = [0xcd; 32];
    let other: B256 = [0xee; 32];
    let params = Params { from_address: Some(from.to_vec()), ..Default::default() };

    let sig = TRANSFER_SIGNATURE_HASH;
    let matching = rpc_log(vec![sig, from, ZERO], 32);
    let nonmatching = rpc_log(vec![sig, other, ZERO], 32);

    assert!(matches_erc20_transfer(&matching, &params));
    assert!(!matches_erc20_transfer(&nonmatching, &params));
}

#[test]
fn transfer_shape_disambiguates_erc20_from_erc721() {
    // ERC-20 and ERC-721 share one hash; the topic count splits them.
    let sig = TRANSFER_SIGNATURE_HASH;
    let hash = alloy::primitives::keccak256("Transfer(address,address,uint256)");
    assert_eq!(hash.0, sig);
    let erc20 = rpc_log(vec![sig, ZERO, ZERO], 32);
    let erc721 = rpc_log(vec![sig, ZERO, ZERO, ZERO], 0);

    assert!(is_erc20_transfer(&erc20));
    assert!(!is_erc20_transfer(&erc721));
    assert!(is_erc721_transfer(&erc721));
    assert!(!is_erc721_transfer(&erc20));
}

#[test]
fn union_filter_unions_topic0_and_strips_lower_topics() {
    let x: B256 = [0xab; 32];
    let params = Params {
        block_range: Some((0, 10)),
        topic0: Some(x.to_vec()),
        topic1: Some(vec![0x01; 32]),
        ..Default::default()
    };
    let filter =
        build_union_filter(&params, &vec![Datatype::Logs, Datatype::Erc20Transfers]).unwrap();

    assert_eq!(filter.topics[0], vec![x, TRANSFER_SIGNATURE_HASH]);
    assert!(filter.topics[1].is_empty(), "user --topic1 must be stripped from the union");
    assert!(filter.topics[2].is_empty());
    assert!(filter.topics[3].is_empty());
}

#[test]
fn malformed_user_topic0_errors_instead_of_panicking() {
    let params = Params {
        block_range: Some((0, 10)),
        topic0: Some(vec![0xde, 0xad, 0xbe, 0xef]), // 4 bytes, not 32
        ..Default::default()
    };
    let err = build_union_filter(&params, &vec![Datatype::Logs, Datatype::Erc20Transfers])
        .unwrap_err();
    assert!(
        err.message().contains("topic0 must be 32 bytes, got 4"),
        "expected a width error, got: {}",
        err.message()
    );
}

#[test]
fn union_filter_unconstrained_when_logs_without_topic0() {
    let params = Params {
        block_range: Some((0, 10)),
        topic1: Some(vec![0x01; 32]),
        ..Default::default()
    };
    let filter =
        build_union_filter(&params, &vec![Datatype::Logs, Datatype::Erc20Transfers]).unwrap();
    assert!(filter.topics[0].is_empty(), "raw logs + no --topic0 => no topic0 constraint");
    assert!(
        filter.topics[1].is_empty(),
        "topic1 stripped so erc20_transfers isn't under-collected"
    );
}

#[test]
fn union_filter_lists_each_signature_once() {
    let params = Params {
        block_range: Some((5, 9)),
        address: Some(vec![0x42; 20]),
        topic0: Some(APPROVAL_SIGNATURE_HASH.to_vec()),
        ..Default::default()
    };
    let active = vec![
        Datatype::Erc721Transfers,
        Datatype::Erc20Transfers,
        Datatype::Erc20Approvals,
        Datatype::Erc20WrapperEvents,
    ];
    let filter = build_union_filter(&params, &active).unwrap();
    assert_eq!(filter.from_block, 5);
    assert_eq!(filter.to_block, 9);
    assert_eq!(filter.address, vec![[0x42; 20]]);
    assert_eq!(
        filter.topics[0],
        vec![
            APPROVAL_SIGNATURE_HASH,
            TRANSFER_SIGNATURE_HASH,
            DEPOSIT_SIGNATURE_HASH,
            WITHDRAWAL_SIGNATURE_HASH,
        ]
    );
}

#[test]
fn union_filter_without_members_is_unconstrained() {
    let params = Params { block_range: Some((0, 1)), ..Default::default() };
    let filter = build_union_filter(&params, &vec![]).unwrap();
    assert!(filter.topics.iter().all(|words| words.is_empty()));
}

#[test]
fn union_filter_needs_a_block_range() {
    let error = build_union_filter(&Params::default(), &vec![Datatype::Logs]).unwrap_err();
    assert_eq!(error.message(), "block_range not specified");
}

#[test]
fn union_filter_admits_the_rows_of_every_member() {
    let params = Params {
        block_range: Some((0, 10)),
        topic0: Some(vec![0xab; 32]),
        from_address: Some(vec![0xcd; 32]),
        ..Default::default()
    };
    let active = vec![Datatype::Logs, Datatype::Erc20Transfers, Datatype::Erc20WrapperEvents];
    let filter = build_union_filter(&params, &active).unwrap();
    let logs = vec![
        rpc_log(vec![[0xab; 32]], 4),
        rpc_log(vec![TRANSFER_SIGNATURE_HASH, [0xcd; 32], ZERO], 32),
        rpc_log(vec![DEPOSIT_SIGNATURE_HASH, [0x01; 32]], 32),
        rpc_log(vec![APPROVAL_SIGNATURE_HASH, [0xcd; 32], ZERO], 32),
    ];
    assert!(matches_logs(&logs[0], &params) && admitted(&filter, &logs[0]));
    assert!(matches_erc20_transfer(&logs[1], &params) && admitted(&filter, &logs[1]));
    assert!(matches_erc20_wrapper(&logs[2], &params) && admitted(&filter, &logs[2]));
    assert!(!admitted(&filter, &logs[3]));
}

#[test]
fn malformed_topic_matches_nothing() {
    let log = rpc_log(vec![[0xde; 32]], 0);
    assert!(!topic_matches(&log, 0, &Some(vec![0xde; 4])));
    assert!(topic_matches(&log, 0, &Some(vec![0xde; 32])));
    assert!(!topic_matches(&log, 1, &Some(vec![0xde; 32])));
    assert!(topic_matches(&log, 1, &None));
}

#[test]
fn approvals_and_nfts_honor_both_addresses() {
    let params = Params {
        from_address: Some(vec![1; 32]),
        to_address: Some(vec![2; 32]),
        topic1: Some(vec![9; 32]),
        ..Default::default()
    };
    let approval = rpc_log(vec![APPROVAL_SIGNATURE_HASH, [1; 32], [2; 32]], 32);
    let foreign = rpc_log(vec![APPROVAL_SIGNATURE_HASH, [1; 32], [3; 32]], 32);
    assert!(matches_erc20_approval(&approval, &params));
    assert!(!matches_erc20_approval(&foreign, &params));
    assert!(is_erc20_approval(&foreign));
    let nft = rpc_log(vec![TRANSFER_SIGNATURE_HASH, [1; 32], [2; 32], ZERO], 0);
    let other = rpc_log(vec![TRANSFER_SIGNATURE_HASH, [2; 32], [2; 32], ZERO], 0);
    assert!(matches_erc721_transfer(&nft, &params));
    assert!(!matches_erc721_transfer(&other, &params));
}

#[test]
fn wrapper_events_honor_the_account() {
    let params = Params { topic1: Some(vec![1; 32]), ..Default::default() };
    let deposit = rpc_log(vec![DEPOSIT_SIGNATURE_HASH, [1; 32]], 32);
    let other = rpc_log(vec![DEPOSIT_SIGNATURE_HASH, [2; 32]], 32);
    assert!(matches_erc20_wrapper(&deposit, &params));
    assert!(!matches_erc20_wrapper(&other, &params));
    assert!(is_wrapper_event(&other));
    let shaped = rpc_log(vec![TRANSFER_SIGNATURE_HASH, [2; 32]], 32);
    assert!(is_wrapper_event_shape(&shaped));
    assert!(!is_wrapper_event(&shaped));
}

#[test]
fn members_receive_their_own_rows_of_a_block() {
    let params = Params { from_address: Some(vec![0xcd; 32]), ..Default::default() };
    let logs = vec![
        mined_log(vec![TRANSFER_SIGNATURE_HASH, [0xcd; 32], ZERO], vec![0; 32]),
        mined_log(vec![TRANSFER_SIGNATURE_HASH, [0xee; 32], ZERO], vec![0; 32]),
        mined_log(vec![TRANSFER_SIGNATURE_HASH, [0xcd; 32], ZERO, ZERO], vec![]),
        mined_log(vec![DEPOSIT_SIGNATURE_HASH, [0x01; 32]], vec![0; 32]),
    ];
    let query = query(&[Datatype::Logs, Datatype::Erc20Transfers, Datatype::Erc20WrapperEvents]);
    let mut columns = LogEvents::default();
    fan_out_block(&params, &logs, &mut columns, &query).unwrap();
    assert_eq!(columns.logs.len(), 4);
    assert_eq!(columns.erc20_transfers.len(), 1);
    assert_eq!(columns.erc20_transfers[0].topics[1], [0xcd; 32]);
    // not requested, so it stays empty
    assert!(columns.erc721_transfers.is_empty());
    assert!(columns.erc20_approvals.is_empty());
    assert_eq!(columns.erc20_wrapper_events.n_rows, 1);
    assert_eq!(columns.erc20_wrapper_events.account, vec![vec![1u8; 20]]);
    // not a column of the schema
    assert!(columns.erc20_wrapper_events.block_number.is_empty());
}

#[test]
fn members_of_a_transaction_are_not_narrowed() {
    let logs = vec![
        mined_log(vec![TRANSFER_SIGNATURE_HASH, [0xee; 32], ZERO], vec![0; 32]),
        mined_log(vec![APPROVAL_SIGNATURE_HASH, [0xee; 32], ZERO], vec![0; 32]),
        mined_log(vec![WITHDRAWAL_SIGNATURE_HASH, [0x01; 32]], vec![0; 32]),
    ];
    let query = query(&[
        Datatype::Logs,
        Datatype::Erc20Transfers,
        Datatype::Erc20Approvals,
        Datatype::Erc721Transfers,
        Datatype::Erc20WrapperEvents,
    ]);
    let mut columns = LogEvents::default();
    fan_out_transaction(&logs, &mut columns, &query).unwrap();
    assert_eq!(columns.logs.len(), 3);
    assert_eq!(columns.erc20_transfers.len(), 1);
    assert_eq!(columns.erc20_approvals.len(), 1);
    assert_eq!(columns.erc721_transfers.len(), 0);
    assert_eq!(columns.erc20_wrapper_events.event_type, vec!["withdrawal".to_string()]);
}

#[test]
fn only_requested_members_become_dataframes() {
    let query = query(&[Datatype::Erc721Transfers, Datatype::Logs]);
    let mut columns = LogEvents::default();
    let logs = vec![mined_log(vec![], vec![1])];
    fan_out_block(&Params::default(), &logs, &mut columns, &query).unwrap();
    let members = columns.active_members(&query.schemas);
    assert_eq!(members.len(), 2);
    assert!(matches!(&members[0], MemberRows::Logs(rows) if rows.len() == 1));
    assert!(matches!(&members[1], MemberRows::Erc721Transfers(rows) if rows.is_empty()));
}

#[test]
fn block_filter_serves_the_requested_members() {
    let params = Params { block_range: Some((1, 2)), ..Default::default() };
    let query = query(&[Datatype::Erc20Approvals, Datatype::Erc20WrapperEvents]);
    let filter = LogEvents::block_log_filter(&params, &query).unwrap();
    assert_eq!(
        filter.topics[0],
        vec![APPROVAL_SIGNATURE_HASH, DEPOSIT_SIGNATURE_HASH, WITHDRAWAL_SIGNATURE_HASH]
    );
}

#[test]
fn responses_are_transformed_up_to_the_first_error() {
    let query = query(&[Datatype::Logs]);
    let one = || Ok((Params::default(), vec![mined_log(vec![], vec![])]));
    let messages: Vec<R<(Params, Vec<Log>)>> = vec![one(), one()];
    let columns: LogEvents = transform_channel::<LogEvents, ByBlock>(messages, &query).unwrap();
    assert_eq!(columns.logs.len(), 2);
    let messages: Vec<R<(Params, Vec<Log>)>> = vec![one(), Err(err("boom")), one()];
    let error = transform_channel::<LogEvents, ByBlock>(messages, &query).unwrap_err();
    assert_eq!(error.message(), "boom");
}

#[test]
fn log_events_are_collected_by_transaction() {
    assert!(LogEvents::can_collect_by_transaction());
    let query = query(&[Datatype::Logs]);
    let mut columns = <LogEvents as Collect<ByTransaction>>::empty();
    <LogEvents as Collect<ByTransaction>>::transform(
        vec![mined_log(vec![], vec![])],
        &mut columns,
        &query,
    )
    .unwrap();
    assert_eq!(columns.logs.len(), 1);
}

#[test]
fn parameters_only_narrow_the_rows() {
    let log = rpc_log(vec![TRANSFER_SIGNATURE_HASH, [1; 32], [2; 32]], 32);
    let open = Params::default();
    let narrow = Params { to_address: Some(vec![3; 32]), ..Default::default() };
    assert!(is_erc20_transfer(&log));
    assert!(matches_erc20_transfer(&log, &open));
    assert!(!matches_erc20_transfer(&log, &narrow));
}
