//! What the rows and columns of the datasets hold, over the fields of the
//! responses they come from.

use vstd::prelude::*;

use crate::bytes::{be_value, views};
use crate::collection::{all_transformed, ByBlock, ByTransaction, Collect};
use crate::datatypes::Datatype;
use crate::erc20_supplies::{Erc20Supplies, SupplyColumns, SupplyModel, SupplyRow};
use crate::erc20_wrapper_events::{
    gives_row, law_wrapper_rows_accumulate, no_wrapper_rows, with_wrapper_rows,
    Erc20WrapperEvents, WrapperColumns,
};
use crate::error::R;
use crate::eth_calls::{
    law_columns_hold_the_calls, with_call_row, with_hashed_row, EthCallColumns, EthCallRow,
    EthCalls, RowModel,
};
use crate::hash::keccak256_hash;
use crate::log::{Log, LogModel};
use crate::schema::{missing_schema, Query};
use crate::seqs::{lemma_filter_contains, lemma_filter_same};
use crate::signatures::{
    lemma_signatures_differ, DEPOSIT_SIGNATURE_HASH, WITHDRAWAL_SIGNATURE_HASH,
};

verus! {

/// Whether a column grew by the added entries, at its end, where the schema has
/// it, and is unchanged otherwise.
pub open spec fn grew<T>(
    schema: Seq<Seq<char>>,
    name: Seq<char>,
    before: Seq<T>,
    after: Seq<T>,
    added: Seq<T>,
) -> bool {
    if schema.contains(name) {
        &&& after.len() == before.len() + added.len()
        &&& forall|i: int| 0 <= i < before.len() ==> #[trigger] after[i] == before[i]
        &&& forall|i: int|
            0 <= i < added.len() ==> after[before.len() + i] == #[trigger] added[i]
    } else {
        after == before
    }
}

// --- wrapper events ---

/// The logs that are deposits or withdrawals by their first topic, at a known
/// place in the chain.
pub open spec fn placed_events(logs: Seq<LogModel>) -> Seq<LogModel> {
    logs.filter(
        |log: LogModel|
            {
                &&& log.topics.len() > 0 && (log.topics[0] == DEPOSIT_SIGNATURE_HASH@
                    || log.topics[0] == WITHDRAWAL_SIGNATURE_HASH@)
                &&& log.block_number is Some
                &&& log.transaction_hash is Some
                &&& log.transaction_index is Some
                &&& log.log_index is Some
            },
    )
}

/// Whether the columns grew by one row for each deposit or withdrawal at a known
/// place, in order: its place, its token, its kind, the account in the low 20
/// bytes of its second topic, and the amount that its data write.
pub open spec fn gained_events(
    before: WrapperColumns,
    after: WrapperColumns,
    logs: Seq<LogModel>,
    schema: Seq<Seq<char>>,
) -> bool {
    let rows = placed_events(logs);
    let n = rows.len();
    &&& after.n_rows == before.n_rows + n
    &&& grew(
        schema,
        "block_number"@,
        before.block_number,
        after.block_number,
        Seq::new(n, |i: int| (rows[i].block_number->0 % 0x1_0000_0000) as u32),
    )
    &&& grew(
        schema,
        "block_hash"@,
        before.block_hash,
        after.block_hash,
        Seq::new(n, |i: int| rows[i].block_hash),
    )
    &&& grew(
        schema,
        "transaction_index"@,
        before.transaction_index,
        after.transaction_index,
        Seq::new(n, |i: int| (rows[i].transaction_index->0 % 0x1_0000_0000) as u32),
    )
    &&& grew(
        schema,
        "log_index"@,
        before.log_index,
        after.log_index,
        Seq::new(n, |i: int| (rows[i].log_index->0 % 0x1_0000_0000) as u32),
    )
    &&& grew(
        schema,
        "transaction_hash"@,
        before.transaction_hash,
        after.transaction_hash,
        Seq::new(n, |i: int| rows[i].transaction_hash->0),
    )
    &&& grew(
        schema,
        "erc20"@,
        before.erc20,
        after.erc20,
        Seq::new(n, |i: int| rows[i].address),
    )
    &&& grew(
        schema,
        "event_type"@,
        before.event_type,
        after.event_type,
        Seq::new(
            n,
            |i: int|
                if rows[i].topics[0] == DEPOSIT_SIGNATURE_HASH@ {
                    "deposit"@
                } else {
                    "withdrawal"@
                },
        ),
    )
    &&& grew(
        schema,
        "account"@,
        before.account,
        after.account,
        Seq::new(n, |i: int| rows[i].topics[1].skip(12)),
    )
    &&& grew(
        schema,
        "value"@,
        before.value,
        after.value,
        Seq::new(n, |i: int| be_value(rows[i].data)),
    )
    &&& after.chain_id == before.chain_id
}

/// Whether the columns hold nothing.
pub open spec fn holds_no_events(columns: WrapperColumns) -> bool {
    &&& columns.n_rows == 0
    &&& columns.block_number.len() == 0
    &&& columns.block_hash.len() == 0
    &&& columns.transaction_index.len() == 0
    &&& columns.log_index.len() == 0
    &&& columns.transaction_hash.len() == 0
    &&& columns.erc20.len() == 0
    &&& columns.event_type.len() == 0
    &&& columns.account.len() == 0
    &&& columns.value.len() == 0
    &&& columns.chain_id.len() == 0
}

/// The model of the columns holds each of them.
pub proof fn law_wrapper_model_holds_the_columns(columns: Erc20WrapperEvents, i: int)
    ensures
        columns@.n_rows == columns.n_rows,
        columns@.block_number == columns.block_number@,
        columns@.block_hash.len() == columns.block_hash@.len(),
        0 <= i < columns.block_hash@.len() ==> match columns.block_hash@[i] {
            Some(hash) => columns@.block_hash[i] == Some(hash@),
            None => columns@.block_hash[i] is None,
        },
        columns@.transaction_index == columns.transaction_index@,
        columns@.log_index == columns.log_index@,
        columns@.transaction_hash.len() == columns.transaction_hash@.len(),
        0 <= i < columns.transaction_hash@.len() ==> columns@.transaction_hash[i]
            == columns.transaction_hash@[i]@,
        columns@.erc20.len() == columns.erc20@.len(),
        0 <= i < columns.erc20@.len() ==> columns@.erc20[i] == columns.erc20@[i]@,
        columns@.event_type.len() == columns.event_type@.len(),
        0 <= i < columns.event_type@.len() ==> columns@.event_type[i] == columns.event_type@[i]@,
        columns@.account.len() == columns.account@.len(),
        0 <= i < columns.account@.len() ==> columns@.account[i] == columns.account@[i]@,
        columns@.value.len() == columns.value@.len(),
        0 <= i < columns.value@.len() ==> columns@.value[i] == columns.value@[i]@,
        columns@.chain_id == columns.chain_id@,
{
}

/// Processing logs keeps every row, and adds one for each deposit or withdrawal
/// at a known place.
pub proof fn law_processing_adds_the_events(
    columns: WrapperColumns,
    logs: Seq<LogModel>,
    schema: Seq<Seq<char>>,
)
    ensures
        gained_events(columns, with_wrapper_rows(columns, logs, schema), logs, schema),
{
    let keep = |log: LogModel|
        {
            &&& log.topics.len() > 0 && (log.topics[0] == DEPOSIT_SIGNATURE_HASH@ || log.topics[0]
                == WITHDRAWAL_SIGNATURE_HASH@)
            &&& log.block_number is Some
            &&& log.transaction_hash is Some
            &&& log.transaction_index is Some
            &&& log.log_index is Some
        };
    lemma_filter_same(logs, |log: LogModel| gives_row(log), keep);
    let rows = placed_events(logs);
    assert forall|i: int| 0 <= i < rows.len() implies keep(#[trigger] rows[i]) by {
        lemma_filter_contains(logs, rows[i], keep);
        assert(rows.contains(rows[i]));
    }
    lemma_signatures_differ();
}

/// Transforming a response keeps every row, and adds one for each deposit or
/// withdrawal at a known place, by block and by transaction alike; it fails
/// exactly where the dataset is not requested.
pub proof fn law_transforming_adds_the_events(
    response: Vec<Log>,
    columns: WrapperColumns,
    query: Query,
)
    ensures
        ({
            let requested = query.schemas@.contains_key(Datatype::Erc20WrapperEvents);
            let schema = query.schemas@[Datatype::Erc20WrapperEvents]@;
            let by_block = <Erc20WrapperEvents as Collect<ByBlock>>::transformed(
                response,
                columns,
                query,
            );
            let by_transaction = <Erc20WrapperEvents as Collect<ByTransaction>>::transformed(
                response,
                columns,
                query,
            );
            &&& by_transaction == by_block
            &&& by_block is Ok <==> requested
            &&& by_block matches Ok(after) ==> gained_events(
                columns,
                after,
                views(response@),
                schema,
            )
            &&& by_block matches Err(message) ==> message == missing_schema(
                Datatype::Erc20WrapperEvents,
            )
        }),
{
    if query.schemas@.contains_key(Datatype::Erc20WrapperEvents) {
        law_processing_adds_the_events(
            columns,
            views(response@),
            query.schemas@[Datatype::Erc20WrapperEvents]@,
        );
    }
}

/// The logs of all responses, one response after the other.
pub open spec fn logs_of(messages: Seq<R<Vec<Log>>>) -> Seq<LogModel>
    decreases messages.len(),
{
    if messages.len() == 0 {
        Seq::empty()
    } else {
        logs_of(messages.drop_last()) + views(messages.last()->Ok_0@)
    }
}

/// Collecting several responses keeps the rows of all of them: the columns have
/// one row for each deposit or withdrawal at a known place among the logs of all
/// responses, in order, and nothing else.
pub proof fn law_collecting_keeps_the_events_of_all_responses(
    messages: Seq<R<Vec<Log>>>,
    query: Query,
)
    requires
        query.schemas@.contains_key(Datatype::Erc20WrapperEvents),
        forall|i: int| 0 <= i < messages.len() ==> (#[trigger] messages[i]) is Ok,
    ensures
        ({
            let schema = query.schemas@[Datatype::Erc20WrapperEvents]@;
            let logs = logs_of(messages);
            let by_block = all_transformed::<Erc20WrapperEvents, ByBlock>(messages, query);
            &&& all_transformed::<Erc20WrapperEvents, ByTransaction>(messages, query) == by_block
            &&& by_block matches Ok(after) && exists|empty: WrapperColumns|
                #![trigger holds_no_events(empty)]
                holds_no_events(empty) && gained_events(empty, after, logs, schema)
        }),
{
    let schema = query.schemas@[Datatype::Erc20WrapperEvents]@;
    lemma_collected_events(messages, query);
    law_processing_adds_the_events(no_wrapper_rows(), logs_of(messages), schema);
    assert(holds_no_events(no_wrapper_rows()));
}

proof fn lemma_collected_events(messages: Seq<R<Vec<Log>>>, query: Query)
    requires
        query.schemas@.contains_key(Datatype::Erc20WrapperEvents),
        forall|i: int| 0 <= i < messages.len() ==> (#[trigger] messages[i]) is Ok,
    ensures
        ({
            let schema = query.schemas@[Datatype::Erc20WrapperEvents]@;
            let columns = with_wrapper_rows(no_wrapper_rows(), logs_of(messages), schema);
            &&& all_transformed::<Erc20WrapperEvents, ByBlock>(messages, query) == Ok::<
                WrapperColumns,
                Seq<char>,
            >(columns)
            &&& all_transformed::<Erc20WrapperEvents, ByTransaction>(messages, query) == Ok::<
                WrapperColumns,
                Seq<char>,
            >(columns)
        }),
    decreases messages.len(),
{
    let schema = query.schemas@[Datatype::Erc20WrapperEvents]@;
    if messages.len() > 0 {
        let earlier = messages.drop_last();
        assert forall|i: int| 0 <= i < earlier.len() implies (#[trigger] earlier[i]) is Ok by {
            assert(earlier[i] == messages[i]);
        }
        lemma_collected_events(earlier, query);
        assert(messages[messages.len() - 1] is Ok);
        law_wrapper_rows_accumulate(
            no_wrapper_rows(),
            logs_of(earlier),
            views(messages.last()->Ok_0@),
            schema,
        );
    } else {
        reveal(Seq::filter);
        assert(with_wrapper_rows(no_wrapper_rows(), Seq::empty(), schema) =~= no_wrapper_rows());
    }
}

// --- calls ---

/// Whether the columns grew by one row: the parts of the call, and the given
/// hashes.
pub open spec fn gained_call(
    before: EthCallColumns,
    after: EthCallColumns,
    row: RowModel,
    call_data_hash: Seq<u8>,
    output_data_hash: Option<Seq<u8>>,
    schema: Seq<Seq<char>>,
) -> bool {
    &&& after.n_rows == before.n_rows + 1
    &&& grew(
        schema,
        "block_number"@,
        before.block_number,
        after.block_number,
        seq![row.block_number],
    )
    &&& grew(
        schema,
        "contract_address"@,
        before.contract_address,
        after.contract_address,
        seq![row.contract_address],
    )
    &&& grew(schema, "call_data"@, before.call_data, after.call_data, seq![row.call_data])
    &&& grew(
        schema,
        "call_data_hash"@,
        before.call_data_hash,
        after.call_data_hash,
        seq![call_data_hash],
    )
    &&& grew(
        schema,
        "output_data"@,
        before.output_data,
        after.output_data,
        seq![row.output_data],
    )
    &&& grew(
        schema,
        "output_data_hash"@,
        before.output_data_hash,
        after.output_data_hash,
        seq![output_data_hash],
    )
    &&& after.chain_id == before.chain_id
}

/// The model of the columns holds each of them, and that of a row its parts.
pub proof fn law_call_models_hold_the_fields(columns: EthCalls, row: EthCallRow, i: int)
    ensures
        columns@.n_rows == columns.n_rows,
        columns@.block_number == columns.block_number@,
        columns@.contract_address.len() == columns.contract_address@.len(),
        0 <= i < columns.contract_address@.len() ==> columns@.contract_address[i]
            == columns.contract_address@[i]@,
        columns@.call_data.len() == columns.call_data@.len(),
        0 <= i < columns.call_data@.len() ==> columns@.call_data[i] == columns.call_data@[i]@,
        columns@.call_data_hash.len() == columns.call_data_hash@.len(),
        0 <= i < columns.call_data_hash@.len() ==> columns@.call_data_hash[i]
            == columns.call_data_hash@[i]@,
        columns@.output_data.len() == columns.output_data@.len(),
        0 <= i < columns.output_data@.len() ==> match columns.output_data@[i] {
            Some(data) => columns@.output_data[i] == Some(data@),
            None => columns@.output_data[i] is None,
        },
        columns@.output_data_hash.len() == columns.output_data_hash@.len(),
        0 <= i < columns.output_data_hash@.len() ==> match columns.output_data_hash@[i] {
            Some(data) => columns@.output_data_hash[i] == Some(data@),
            None => columns@.output_data_hash[i] is None,
        },
        columns@.chain_id == columns.chain_id@,
        row@.block_number == row.block_number,
        row@.contract_address == row.contract_address@,
        row@.call_data == row.call_data@,
        match row.output_data {
            Some(data) => row@.output_data == Some(data@),
            None => row@.output_data is None,
        },
{
}

/// Storing a call keeps every row, and adds one with the parts of the call and
/// the given hashes. Processing it adds the hashes of its own data, and of its
/// output exactly where it has one.
pub proof fn law_processing_adds_the_call(
    columns: EthCallColumns,
    row: RowModel,
    call_data_hash: Seq<u8>,
    output_data_hash: Option<Seq<u8>>,
    schema: Seq<Seq<char>>,
)
    ensures
        gained_call(
            columns,
            with_hashed_row(columns, row, call_data_hash, output_data_hash, schema),
            row,
            call_data_hash,
            output_data_hash,
            schema,
        ),
        gained_call(
            columns,
            with_call_row(columns, row, schema),
            row,
            keccak256_hash(row.call_data),
            match row.output_data {
                Some(output) => Some(keccak256_hash(output)),
                None => None,
            },
            schema,
        ),
{
}

/// Transforming an answered call keeps every row and adds one with its parts and
/// their hashes; it fails exactly where the dataset is not requested. Calls are
/// not collected by transaction.
pub proof fn law_transforming_adds_the_call(
    response: EthCallRow,
    columns: EthCallColumns,
    query: Query,
)
    ensures
        ({
            let after = <EthCalls as Collect<ByBlock>>::transformed(response, columns, query);
            &&& after is Ok <==> query.schemas@.contains_key(Datatype::EthCalls)
            &&& after matches Ok(after) ==> gained_call(
                columns,
                after,
                response@,
                keccak256_hash(response.call_data@),
                match response.output_data {
                    Some(output) => Some(keccak256_hash(output@)),
                    None => None,
                },
                query.schemas@[Datatype::EthCalls]@,
            )
            &&& after matches Err(message) ==> message == missing_schema(Datatype::EthCalls)
        }),
        <EthCalls as Collect<ByTransaction>>::transformed((), columns, query) == Err::<
            EthCallColumns,
            Seq<char>,
        >("CollectByTransaction not implemented"@),
{
}

/// Whether a column holds these entries and nothing else where the schema has it,
/// and nothing otherwise.
pub open spec fn holds<T>(
    schema: Seq<Seq<char>>,
    name: Seq<char>,
    column: Seq<T>,
    entries: Seq<T>,
) -> bool {
    if schema.contains(name) {
        &&& column.len() == entries.len()
        &&& forall|i: int| 0 <= i < entries.len() ==> column[i] == #[trigger] entries[i]
    } else {
        column.len() == 0
    }
}

/// After answered calls are collected in order, the i-th entry of each stored
/// column is the part of the i-th call, for every i.
pub proof fn law_collected_calls_stay_together(rows: Seq<R<EthCallRow>>, query: Query)
    requires
        query.schemas@.contains_key(Datatype::EthCalls),
        forall|j: int| 0 <= j < rows.len() ==> (#[trigger] rows[j]) is Ok,
    ensures
        all_transformed::<EthCalls, ByBlock>(rows, query) matches Ok(after) && {
            let schema = query.schemas@[Datatype::EthCalls]@;
            let n = rows.len();
            &&& after.n_rows == n
            &&& holds(
                schema,
                "block_number"@,
                after.block_number,
                Seq::new(n, |i: int| rows[i]->Ok_0.block_number),
            )
            &&& holds(
                schema,
                "contract_address"@,
                after.contract_address,
                Seq::new(n, |i: int| rows[i]->Ok_0.contract_address@),
            )
            &&& holds(
                schema,
                "call_data"@,
                after.call_data,
                Seq::new(n, |i: int| rows[i]->Ok_0.call_data@),
            )
            &&& holds(
                schema,
                "call_data_hash"@,
                after.call_data_hash,
                Seq::new(n, |i: int| keccak256_hash(rows[i]->Ok_0.call_data@)),
            )
            &&& holds(
                schema,
                "output_data"@,
                after.output_data,
                Seq::new(
                    n,
                    |i: int|
                        match rows[i]->Ok_0.output_data {
                            Some(output) => Some(output@),
                            None => None,
                        },
                ),
            )
            &&& holds(
                schema,
                "output_data_hash"@,
                after.output_data_hash,
                Seq::new(
                    n,
                    |i: int|
                        match rows[i]->Ok_0.output_data {
                            Some(output) => Some(keccak256_hash(output@)),
                            None => None,
                        },
                ),
            )
            &&& after.chain_id.len() == 0
        },
{
    law_columns_hold_the_calls(rows, query);
}

// --- supplies ---

/// Whether the columns grew by one row: the block, the token and its supply.
pub open spec fn gained_supply(
    before: SupplyColumns,
    after: SupplyColumns,
    row: SupplyModel,
    schema: Seq<Seq<char>>,
) -> bool {
    &&& after.n_rows == before.n_rows + 1
    &&& grew(
        schema,
        "block_number"@,
        before.block_number,
        after.block_number,
        seq![row.block_number],
    )
    &&& grew(schema, "erc20"@, before.erc20, after.erc20, seq![row.erc20])
    &&& grew(
        schema,
        "total_supply"@,
        before.total_supply,
        after.total_supply,
        seq![row.total_supply],
    )
    &&& after.chain_id == before.chain_id
}

/// The model of the columns holds each of them, and that of a row its parts.
pub proof fn law_supply_models_hold_the_fields(columns: Erc20Supplies, row: SupplyRow, i: int)
    ensures
        columns@.n_rows == columns.n_rows,
        columns@.block_number == columns.block_number@,
        columns@.erc20.len() == columns.erc20@.len(),
        0 <= i < columns.erc20@.len() ==> columns@.erc20[i] == columns.erc20@[i]@,
        columns@.total_supply.len() == columns.total_supply@.len(),
        0 <= i < columns.total_supply@.len() ==> match columns.total_supply@[i] {
            Some(supply) => columns@.total_supply[i] == Some(supply@),
            None => columns@.total_supply[i] is None,
        },
        columns@.chain_id == columns.chain_id@,
        row@.block_number == row.block_number,
        row@.erc20 == row.erc20@,
        match row.total_supply {
            Some(supply) => row@.total_supply == Some(supply@),
            None => row@.total_supply is None,
        },
{
}

/// Transforming a supply keeps every row and adds one with its parts; it fails
/// exactly where the dataset is not requested. Supplies are not collected by
/// transaction.
pub proof fn law_transforming_adds_the_supply(
    response: SupplyRow,
    columns: SupplyColumns,
    query: Query,
)
    ensures
        ({
            let after = <Erc20Supplies as Collect<ByBlock>>::transformed(response, columns, query);
            &&& after is Ok <==> query.schemas@.contains_key(Datatype::Erc20Supplies)
            &&& after matches Ok(after) ==> gained_supply(
                columns,
                after,
                response@,
                query.schemas@[Datatype::Erc20Supplies]@,
            )
            &&& after matches Err(message) ==> message == missing_schema(Datatype::Erc20Supplies)
        }),
        <Erc20Supplies as Collect<ByTransaction>>::transformed((), columns, query) == Err::<
            SupplyColumns,
            Seq<char>,
        >("CollectByTransaction not implemented"@),
{
}

/// After supplies are collected in order, the i-th entry of each stored column is
/// the part of the i-th supply, for every i: no token is reported with the supply
/// of another.
pub proof fn law_collected_supplies_stay_together(rows: Seq<R<SupplyRow>>, query: Query)
    requires
        query.schemas@.contains_key(Datatype::Erc20Supplies),
        forall|j: int| 0 <= j < rows.len() ==> (#[trigger] rows[j]) is Ok,
    ensures
        all_transformed::<Erc20Supplies, ByBlock>(rows, query) matches Ok(after) && {
            let schema = query.schemas@[Datatype::Erc20Supplies]@;
            let n = rows.len();
            &&& after.n_rows == n
            &&& holds(
                schema,
                "block_number"@,
                after.block_number,
                Seq::new(n, |i: int| rows[i]->Ok_0.block_number),
            )
            &&& holds(
                schema,
                "erc20"@,
                after.erc20,
                Seq::new(n, |i: int| rows[i]->Ok_0.erc20@),
            )
            &&& holds(
                schema,
                "total_supply"@,
                after.total_supply,
                Seq::new(
                    n,
                    |i: int|
                        match rows[i]->Ok_0.total_supply {
                            Some(supply) => Some(supply@),
                            None => None,
                        },
                ),
            )
            &&& after.chain_id.len() == 0
        },
    decreases rows.len(),
{
    if rows.len() > 0 {
        let earlier = rows.drop_last();
        assert forall|j: int| 0 <= j < earlier.len() implies (#[trigger] earlier[j]) is Ok by {
            assert(earlier[j] == rows[j]);
        }
        assert(rows[rows.len() - 1] is Ok);
        law_collected_supplies_stay_together(earlier, query);
        let before = all_transformed::<Erc20Supplies, ByBlock>(earlier, query)->Ok_0;
        let schema = query.schemas@[Datatype::Erc20Supplies]@;
        let n = earlier.len();
        let blocks = Seq::new(n, |i: int| earlier[i]->Ok_0.block_number);
        let tokens = Seq::new(n, |i: int| earlier[i]->Ok_0.erc20@);
        let supplies = Seq::new(
            n,
            |i: int|
                match earlier[i]->Ok_0.total_supply {
                    Some(supply) => Some(supply@),
                    None => None,
                },
        );
        assert(schema.contains("block_number"@) ==> before.block_number =~= blocks);
        assert(schema.contains("erc20"@) ==> before.erc20 =~= tokens);
        assert(schema.contains("total_supply"@) ==> before.total_supply =~= supplies);
    }
}

} // verus!
