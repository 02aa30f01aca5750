use triodion::rpc_params::{fixed_from_slice, Params};

#[test]
fn missing_parameters_are_named() {
    let params = Params::default();
    assert_eq!(params.block_number().unwrap_err().message(), "block_number not specified");
    assert_eq!(params.block_range().unwrap_err().message(), "block_range not specified");
    assert_eq!(params.transaction_hash().unwrap_err().message(), "transaction not specified");
    assert_eq!(params.address().unwrap_err().message(), "address not specified");
    assert_eq!(params.contract().unwrap_err().message(), "contract not specified");
    assert_eq!(params.slot().unwrap_err().message(), "slot not specified");
    assert_eq!(params.call_data().unwrap_err().message(), "call_data not specified");
    assert_eq!(params.ethers_block_number().unwrap_err().message(), "block_number not specified");
    assert_eq!(
        params.ethers_transaction_hash().unwrap_err().message(),
        "transaction not specified"
    );
    assert_eq!(params.ethers_address().unwrap_err().message(), "address not specified");
    assert_eq!(params.ethers_contract().unwrap_err().message(), "contract not specified");
    assert_eq!(params.ethers_log_filter().unwrap_err().message(), "block_range not specified");
}

#[test]
fn given_parameters_are_returned() {
    let params = Params {
        block_number: Some(7),
        block_range: Some((3, 9)),
        transaction_hash: Some(vec![1; 32]),
        call_data: Some(vec![2; 5]),
        address: Some(vec![3; 20]),
        contract: Some(vec![4; 20]),
        slot: Some(vec![5; 32]),
        ..Default::default()
    };
    assert_eq!(params.block_number().unwrap(), 7);
    assert_eq!(params.ethers_block_number().unwrap(), 7);
    assert_eq!(params.block_range().unwrap(), (3, 9));
    assert_eq!(params.transaction_hash().unwrap(), vec![1; 32]);
    assert_eq!(params.ethers_transaction_hash().unwrap(), [1; 32]);
    assert_eq!(params.call_data().unwrap(), vec![2; 5]);
    assert_eq!(params.address().unwrap(), vec![3; 20]);
    assert_eq!(params.ethers_address().unwrap(), [3; 20]);
    assert_eq!(params.contract().unwrap(), vec![4; 20]);
    assert_eq!(params.ethers_contract().unwrap(), [4; 20]);
    assert_eq!(params.slot().unwrap(), vec![5; 32]);
}

#[test]
fn words_of_the_wrong_width_are_errors() {
    let params = Params {
        transaction_hash: Some(vec![1; 31]),
        address: Some(vec![3; 21]),
        contract: Some(vec![]),
        ..Default::default()
    };
    assert_eq!(
        params.ethers_transaction_hash().unwrap_err().message(),
        "transaction_hash must be 32 bytes, got 31"
    );
    assert_eq!(
        params.ethers_address().unwrap_err().message(),
        "address must be 20 bytes, got 21"
    );
    assert_eq!(
        params.ethers_contract().unwrap_err().message(),
        "contract must be 20 bytes, got 0"
    );
    assert_eq!(fixed_from_slice::<2>(&[8, 9], "pair").unwrap(), [8, 9]);
    assert_eq!(
        fixed_from_slice::<2>(&[0; 1234], "pair").unwrap_err().message(),
        "pair must be 2 bytes, got 1234"
    );
}

#[test]
fn log_filter_holds_what_is_given() {
    let params = Params {
        block_range: Some((1, 2)),
        address: Some(vec![3; 20]),
        topic0: Some(vec![4; 32]),
        topic2: Some(vec![6; 32]),
        ..Default::default()
    };
    let filter = params.ethers_log_filter().unwrap();
    assert_eq!((filter.from_block, filter.to_block), (1, 2));
    assert_eq!(filter.address, vec![[3; 20]]);
    assert_eq!(filter.topics, [vec![[4; 32]], vec![], vec![[6; 32]], vec![]]);
}

#[test]
fn log_filter_reports_the_first_malformed_word() {
    let malformed = |set: fn(&mut Params)| {
        let mut params = Params { block_range: Some((1, 2)), ..Default::default() };
        set(&mut params);
        params.ethers_log_filter().unwrap_err().message().to_string()
    };
    assert_eq!(
        malformed(|params| {
            params.address = Some(vec![0; 19]);
            params.topic0 = Some(vec![0; 1]);
        }),
        "address must be 20 bytes, got 19"
    );
    assert_eq!(
        malformed(|params| {
            params.topic0 = Some(vec![0; 1]);
            params.topic3 = Some(vec![0; 2]);
        }),
        "topic0 must be 32 bytes, got 1"
    );
    assert_eq!(
        malformed(|params| params.topic1 = Some(vec![0; 33])),
        "topic1 must be 32 bytes, got 33"
    );
    assert_eq!(
        malformed(|params| params.topic2 = Some(vec![])),
        "topic2 must be 32 bytes, got 0"
    );
    assert_eq!(
        malformed(|params| params.topic3 = Some(vec![0; 100])),
        "topic3 must be 32 bytes, got 100"
    );
}
