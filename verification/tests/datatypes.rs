use triodion::datatypes::{Datatype, MultiDatatype};

const NAMES: [&str; 38] = [
    "address_appearances",
    "balance_diffs",
    "balance_reads",
    "balances",
    "blocks",
    "code_diffs",
    "code_reads",
    "codes",
    "contracts",
    "erc20_balances",
    "erc20_metadata",
    "erc20_supplies",
    "erc20_transfers",
    "erc20_approvals",
    "erc20_wrapper_events",
    "erc721_metadata",
    "erc721_transfers",
    "eth_calls",
    "four_byte_counts",
    "geth_calls",
    "geth_code_diffs",
    "geth_balance_diffs",
    "geth_storage_diffs",
    "geth_nonce_diffs",
    "geth_opcodes",
    "javascript_traces",
    "logs",
    "native_transfers",
    "nonce_diffs",
    "nonce_reads",
    "nonces",
    "slots",
    "storage_diffs",
    "storage_reads",
    "traces",
    "trace_calls",
    "transactions",
    "vm_traces",
];

#[test]
fn datatypes_are_listed_with_their_names() {
    let names: Vec<String> = Datatype::all().iter().map(|datatype| datatype.name()).collect();
    assert_eq!(names, NAMES);
}

#[test]
fn datatypes_are_listed_at_their_index() {
    for (i, datatype) in Datatype::all().iter().enumerate() {
        assert_eq!(datatype.index(), i as u64);
        assert_eq!(Datatype::all().iter().filter(|other| *other == datatype).count(), 1);
    }
}

#[test]
fn datatypes_have_their_aliases() {
    let aliases: Vec<(String, Vec<&str>)> = Datatype::all()
        .iter()
        .filter(|datatype| !datatype.aliases().is_empty())
        .map(|datatype| (datatype.name(), datatype.aliases()))
        .collect();
    let expected = vec![
        ("erc20_wrapper_events".to_string(), vec!["wrapper_events", "weth_events"]),
        ("four_byte_counts".to_string(), vec!["4byte_counts"]),
        ("javascript_traces".to_string(), vec!["js_traces"]),
        ("logs".to_string(), vec!["events"]),
        ("slots".to_string(), vec!["storages"]),
        ("storage_diffs".to_string(), vec!["slot_diffs"]),
        ("storage_reads".to_string(), vec!["slot_reads"]),
        ("transactions".to_string(), vec!["txs"]),
        ("vm_traces".to_string(), vec!["opcode_traces"]),
    ];
    assert_eq!(aliases, expected);
}

#[test]
fn groups_have_their_names_and_members() {
    let listing: Vec<String> = MultiDatatype::variants()
        .iter()
        .map(|group| {
            let members: Vec<String> =
                group.datatypes().iter().map(|datatype| datatype.name()).collect();
            format!("{}: {}", group.name(), members.join(", "))
        })
        .collect();
    let expected = [
        "blocks_and_transactions: blocks, transactions",
        "call_trace_derivatives: contracts, native_transfers, traces",
        "geth_state_diffs: geth_balance_diffs, geth_code_diffs, geth_nonce_diffs, geth_storage_diffs",
        "log_events: logs, erc20_transfers, erc20_approvals, erc721_transfers, erc20_wrapper_events",
        "state_diffs: balance_diffs, code_diffs, nonce_diffs, storage_diffs",
        "state_reads: balance_reads, code_reads, nonce_reads, storage_reads",
    ];
    assert_eq!(listing, expected);
}

#[test]
fn no_datatype_is_in_two_groups() {
    for datatype in Datatype::all() {
        let groups = MultiDatatype::variants()
            .iter()
            .filter(|group| group.datatypes().contains(&datatype))
            .count();
        assert!(groups <= 1);
    }
}
