//! Results of `eth_call`, one by one or batched through Multicall3.

use vstd::prelude::*;
use vstd::slice::slice_to_vec;

use crate::bytes::{
    lemma_option_views_push, lemma_views_push, low32, low_bits, option_view, option_views, views,
    Address,
};
use crate::collection::{all_transformed, ByBlock, ByTransaction, Collect, CollectByTransaction};
use crate::datatypes::Datatype;
use crate::dim::Dim;
use crate::error::{collected, err, lemma_collected_next, list_view, result_view, CollectError, R};
use crate::hash::{keccak256, keccak256_hash};
use crate::multicall::{
    aggregate3_arguments, aggregate3_call_data, aggregate3_outcomes, aggregate3_returns, Call3,
    CallResult,
};
use crate::rpc_params::{present, required_word, Params};
use crate::schema::{entries, lemma_stored_one, missing_schema, store, stored, Query, Table};
use crate::signatures::AGGREGATE3_SELECTOR;
use crate::text::{decimal, push_decimal};

verus! {

/// A single `eth_call` request.
#[derive(Debug)]
pub struct EthCall {
    /// called contract
    pub to: Address,
    /// call data
    pub data: Vec<u8>,
    /// block at which the call is evaluated
    pub block: u64,
}

/// The model of a request: contract, call data and block.
pub struct EthCallModel {
    pub to: Seq<u8>,
    pub data: Seq<u8>,
    pub block: u64,
}

impl View for EthCall {
    type V = EthCallModel;

    open spec fn view(&self) -> EthCallModel {
        EthCallModel { to: self.to@, data: self.data@, block: self.block }
    }
}

/// The result of one call.
#[derive(Debug)]
pub struct EthCallRow {
    /// block number
    pub block_number: u32,
    /// called contract
    pub contract_address: Vec<u8>,
    /// call data
    pub call_data: Vec<u8>,
    /// returned data, if the call succeeded
    pub output_data: Option<Vec<u8>>,
}

/// The model of the result of one call.
pub struct RowModel {
    pub block_number: u32,
    pub contract_address: Seq<u8>,
    pub call_data: Seq<u8>,
    pub output_data: Option<Seq<u8>>,
}

impl View for EthCallRow {
    type V = RowModel;

    open spec fn view(&self) -> RowModel {
        RowModel {
            block_number: self.block_number,
            contract_address: self.contract_address@,
            call_data: self.call_data@,
            output_data: option_view(self.output_data),
        }
    }
}

/// The request that the parameters describe, or the first thing wrong with them.
pub open spec fn single_call(params: Params) -> Result<EthCallModel, Seq<char>> {
    match required_word(
        option_view(params.contract),
        "contract not specified"@,
        20,
        "contract"@,
    ) {
        Err(message) => Err(message),
        Ok(to) => match present(option_view(params.call_data), "call_data not specified"@) {
            Err(message) => Err(message),
            Ok(data) => match present(params.block_number, "block_number not specified"@) {
                Err(message) => Err(message),
                Ok(block) => Ok(EthCallModel { to, data, block }),
            },
        },
    }
}

/// The row of a request that was answered with `output`.
pub open spec fn answered_row(call: EthCallModel, output: Option<Seq<u8>>) -> RowModel {
    RowModel {
        block_number: low_bits(call.block),
        contract_address: call.to,
        call_data: call.data,
        output_data: output,
    }
}

/// The `eth_call` request for one set of parameters.
pub fn single_eth_call(request: &Params) -> (call: R<EthCall>)
    ensures
        result_view(call) == single_call(*request),
{
    let to = request.ethers_contract()?;
    let data = request.call_data()?;
    let block = request.block_number()?;
    Ok(EthCall { to, data, block })
}

impl EthCall {
    /// The row of the call once it is answered; a failed call has no output.
    pub fn answered(self, output: Option<Vec<u8>>) -> (row: EthCallRow)
        ensures
            row@ == answered_row(self@, option_view(output)),
            row.output_data == output,
            row.contract_address@ == self.to@,
            row.call_data@ == self.data@,
            row.block_number == self.block % 0x1_0000_0000,
    {
        EthCallRow {
            block_number: low32(self.block),
            contract_address: slice_to_vec(&self.to),
            call_data: self.data,
            output_data: output,
        }
    }
}

// --- batches ---

/// The inner call of a batch for one set of parameters.
pub open spec fn inner_call(params: Params, require_success: bool) -> Result<
    (Seq<u8>, bool, Seq<u8>),
    Seq<char>,
> {
    match required_word(
        option_view(params.contract),
        "contract not specified"@,
        20,
        "contract"@,
    ) {
        Err(message) => Err(message),
        Ok(target) => match present(option_view(params.call_data), "call_data not specified"@) {
            Err(message) => Err(message),
            Ok(data) => Ok((target, !require_success, data)),
        },
    }
}

/// The inner calls of a batch, or the first thing wrong with its parameters.
pub open spec fn inner_calls(batch: Seq<Params>, require_success: bool) -> Result<
    Seq<(Seq<u8>, bool, Seq<u8>)>,
    Seq<char>,
> {
    collected(batch.map_values(|params: Params| inner_call(params, require_success)))
}

fn batch_call(params: &Params, require_success: bool) -> (call: R<Call3>)
    ensures
        result_view(call) == inner_call(*params, require_success),
{
    let target = params.ethers_contract()?;
    let call_data = params.call_data()?;
    Ok(Call3 { target, allow_failure: !require_success, call_data })
}

/// The inner calls of a batch, in order.
pub fn batch_calls(batch: &Vec<Params>, require_success: bool) -> (calls: R<Vec<Call3>>)
    ensures
        list_view(calls) == inner_calls(batch@, require_success),
{
    let mut calls: Vec<Call3> = Vec::new();
    let ghost results = batch@.map_values(|params: Params| inner_call(params, require_success));
    let mut i: usize = 0;
    assert(views(calls@) =~= Seq::empty());
    while i < batch.len()
        invariant
            i <= batch@.len(),
            results == batch@.map_values(|params: Params| inner_call(params, require_success)),
            collected(results.take(i as int)) == Ok::<
                Seq<(Seq<u8>, bool, Seq<u8>)>,
                Seq<char>,
            >(views(calls@)),
        decreases batch@.len() - i,
    {
        proof {
            lemma_collected_next(results, i as int);
        }
        let call = batch_call(&batch[i], require_success)?;
        let ghost before = calls@;
        calls.push(call);
        assert(views(calls@) == views(before).push(call@));
        i += 1;
    }
    assert(results.take(results.len() as int) =~= results);
    Ok(calls)
}

/// Call data of the `aggregate3` request for a batch.
pub fn multicall_request(batch: &Vec<Params>, require_success: bool) -> (data: R<Vec<u8>>)
    ensures
        match inner_calls(batch@, require_success) {
            Ok(calls) => data matches Ok(data) && data@ == AGGREGATE3_SELECTOR@
                + aggregate3_arguments(calls),
            Err(message) => data matches Err(error) && error@ == message,
        },
{
    let calls = batch_calls(batch, require_success)?;
    Ok(aggregate3_call_data(&calls))
}

/// The row of one inner call with its outcome.
pub open spec fn outcome_row(params: Params, outcome: (bool, Seq<u8>)) -> Result<
    RowModel,
    Seq<char>,
> {
    match present(params.block_number, "block_number not specified"@) {
        Err(message) => Err(message),
        Ok(block) => match present(option_view(params.contract), "contract not specified"@) {
            Err(message) => Err(message),
            Ok(contract) => match present(
                option_view(params.call_data),
                "call_data not specified"@,
            ) {
                Err(message) => Err(message),
                Ok(data) => Ok(
                    RowModel {
                        block_number: low_bits(block),
                        contract_address: contract,
                        call_data: data,
                        output_data: if outcome.0 {
                            Some(outcome.1)
                        } else {
                            None
                        },
                    },
                ),
            },
        },
    }
}

/// The message about a reply with the wrong number of outcomes.
pub open spec fn count_message(outcomes: nat, calls: nat) -> Seq<char> {
    "multicall returned "@ + decimal(outcomes) + " results for a "@ + decimal(calls)
        + " call batch"@
}

/// The error about a reply with the wrong number of outcomes.
pub(crate) fn count_error(outcomes: usize, calls: usize) -> (error: CollectError)
    ensures
        error@ == count_message(outcomes as nat, calls as nat),
{
    let mut message: String = String::new();
    message.append("multicall returned ");
    push_decimal(&mut message, outcomes as u64);
    message.append(" results for a ");
    push_decimal(&mut message, calls as u64);
    message.append(" call batch");
    assert(message@ =~= count_message(outcomes as nat, calls as nat));
    CollectError::CollectError(message)
}

/// The rows of a batch with its outcomes: one row per call, in order.
pub open spec fn outcome_rows(batch: Seq<Params>, outcomes: Seq<(bool, Seq<u8>)>) -> Result<
    Seq<RowModel>,
    Seq<char>,
> {
    if outcomes.len() != batch.len() {
        Err(count_message(outcomes.len(), batch.len()))
    } else {
        collected(Seq::new(batch.len(), |i: int| outcome_row(batch[i], outcomes[i])))
    }
}

fn batch_row(params: &Params, outcome: &CallResult) -> (row: R<EthCallRow>)
    ensures
        result_view(row) == outcome_row(*params, outcome@),
{
    let output_data = if outcome.success {
        Some(slice_to_vec(outcome.return_data.as_slice()))
    } else {
        None
    };
    let block = params.block_number()?;
    let contract_address = params.contract()?;
    let call_data = params.call_data()?;
    Ok(EthCallRow { block_number: low32(block), contract_address, call_data, output_data })
}

/// The rows of a batch from the decoded outcomes.
pub fn batch_rows(batch: &Vec<Params>, outcomes: &Vec<CallResult>) -> (rows: R<Vec<EthCallRow>>)
    ensures
        list_view(rows) == outcome_rows(batch@, views(outcomes@)),
{
    if outcomes.len() != batch.len() {
        return Err(count_error(outcomes.len(), batch.len()));
    }
    let mut rows: Vec<EthCallRow> = Vec::with_capacity(batch.len());
    let ghost models = views(outcomes@);
    let ghost results = Seq::new(batch@.len(), |i: int| outcome_row(batch@[i], models[i]));
    let mut i: usize = 0;
    assert(views(rows@) =~= Seq::empty());
    while i < batch.len()
        invariant
            i <= batch@.len(),
            outcomes@.len() == batch@.len(),
            models == views(outcomes@),
            results == Seq::new(batch@.len(), |i: int| outcome_row(batch@[i], models[i])),
            collected(results.take(i as int)) == Ok::<Seq<RowModel>, Seq<char>>(views(rows@)),
        decreases batch@.len() - i,
    {
        proof {
            lemma_collected_next(results, i as int);
        }
        let row = batch_row(&batch[i], &outcomes[i])?;
        let ghost before = rows@;
        rows.push(row);
        assert(views(rows@) == views(before).push(row@));
        i += 1;
    }
    assert(results.take(results.len() as int) =~= results);
    Ok(rows)
}

/// The rows of a batch from the reply to its `aggregate3` request.
///
/// A reply that does not decode, or has another number of outcomes than the
/// batch has calls, fails the batch.
pub fn multicall_rows(batch: &Vec<Params>, reply: &[u8]) -> (rows: R<Vec<EthCallRow>>)
    ensures
        list_view(rows) == outcome_rows(batch@, aggregate3_outcomes(reply@)) || (rows matches Err(
            error,
        ) && "multicall decode failed: "@.is_prefix_of(error@)),
{
    let outcomes = aggregate3_returns(reply)?;
    batch_rows(batch, &outcomes)
}

/// Batching does not change a row: the row of an inner call is the row of the
/// direct call with the same outcome, where a failed call has no output. Both
/// call the same contract with the same data.
pub proof fn law_batched_rows_are_the_direct_ones(
    params: Params,
    outcome: (bool, Seq<u8>),
    require_success: bool,
)
    requires
        single_call(params) is Ok,
    ensures
        ({
            let call = single_call(params)->Ok_0;
            let output = if outcome.0 {
                Some(outcome.1)
            } else {
                None
            };
            &&& outcome_row(params, outcome) == Ok::<RowModel, Seq<char>>(
                answered_row(call, output),
            )
            &&& inner_call(params, require_success) == Ok::<(Seq<u8>, bool, Seq<u8>), Seq<char>>(
                (call.to, !require_success, call.data),
            )
        }),
{
}

// --- columns ---

/// columns for calls
#[derive(Debug)]
pub struct EthCalls {
    /// number of stored calls
    pub n_rows: u64,
    /// block number
    pub block_number: Vec<u32>,
    /// called contract
    pub contract_address: Vec<Vec<u8>>,
    /// call data
    pub call_data: Vec<Vec<u8>>,
    /// hash of the call data
    pub call_data_hash: Vec<Vec<u8>>,
    /// returned data, if the call succeeded
    pub output_data: Vec<Option<Vec<u8>>>,
    /// hash of the returned data, if the call succeeded
    pub output_data_hash: Vec<Option<Vec<u8>>>,
    /// chain id
    pub chain_id: Vec<u64>,
}

/// The model of the columns.
#[verifier::ext_equal]
pub struct EthCallColumns {
    pub n_rows: nat,
    pub block_number: Seq<u32>,
    pub contract_address: Seq<Seq<u8>>,
    pub call_data: Seq<Seq<u8>>,
    pub call_data_hash: Seq<Seq<u8>>,
    pub output_data: Seq<Option<Seq<u8>>>,
    pub output_data_hash: Seq<Option<Seq<u8>>>,
    pub chain_id: Seq<u64>,
}

impl View for EthCalls {
    type V = EthCallColumns;

    open spec fn view(&self) -> EthCallColumns {
        EthCallColumns {
            n_rows: self.n_rows as nat,
            block_number: self.block_number@,
            contract_address: views(self.contract_address@),
            call_data: views(self.call_data@),
            call_data_hash: views(self.call_data_hash@),
            output_data: option_views(self.output_data@),
            output_data_hash: option_views(self.output_data_hash@),
            chain_id: self.chain_id@,
        }
    }
}

/// Columns without rows.
pub open spec fn no_call_rows() -> EthCallColumns {
    EthCallColumns {
        n_rows: 0,
        block_number: Seq::empty(),
        contract_address: Seq::empty(),
        call_data: Seq::empty(),
        call_data_hash: Seq::empty(),
        output_data: Seq::empty(),
        output_data_hash: Seq::empty(),
        chain_id: Seq::empty(),
    }
}

/// The columns with one row and the hashes of its data added, in the columns of
/// the schema.
pub open spec fn with_hashed_row(
    columns: EthCallColumns,
    row: RowModel,
    call_data_hash: Seq<u8>,
    output_data_hash: Option<Seq<u8>>,
    schema: Seq<Seq<char>>,
) -> EthCallColumns {
    EthCallColumns {
        n_rows: columns.n_rows + 1,
        block_number: stored(
            schema,
            "block_number"@,
            columns.block_number,
            seq![row.block_number],
        ),
        contract_address: stored(
            schema,
            "contract_address"@,
            columns.contract_address,
            seq![row.contract_address],
        ),
        call_data: stored(schema, "call_data"@, columns.call_data, seq![row.call_data]),
        call_data_hash: stored(
            schema,
            "call_data_hash"@,
            columns.call_data_hash,
            seq![call_data_hash],
        ),
        output_data: stored(schema, "output_data"@, columns.output_data, seq![row.output_data]),
        output_data_hash: stored(
            schema,
            "output_data_hash"@,
            columns.output_data_hash,
            seq![output_data_hash],
        ),
        ..columns
    }
}

/// The hash of optional data.
pub open spec fn optional_hash(data: Option<Seq<u8>>) -> Option<Seq<u8>> {
    match data {
        Some(data) => Some(keccak256_hash(data)),
        None => None,
    }
}

/// The columns with one row added.
pub open spec fn with_call_row(
    columns: EthCallColumns,
    row: RowModel,
    schema: Seq<Seq<char>>,
) -> EthCallColumns {
    with_hashed_row(
        columns,
        row,
        keccak256_hash(row.call_data),
        optional_hash(row.output_data),
        schema,
    )
}

/// store a call with the hashes of its data
pub fn store_eth_call(
    response: EthCallRow,
    call_data_hash: Vec<u8>,
    output_data_hash: Option<Vec<u8>>,
    columns: &mut EthCalls,
    schema: &Table,
)
    requires
        old(columns).n_rows < u64::MAX,
    ensures
        final(columns)@ == with_hashed_row(
            old(columns)@,
            response@,
            call_data_hash@,
            option_view(output_data_hash),
            schema@,
        ),
{
    broadcast use {lemma_views_push, lemma_option_views_push, lemma_stored_one};

    let ghost start = columns@;
    columns.n_rows = columns.n_rows + 1;
    store(schema, "block_number", &mut columns.block_number, response.block_number);
    store(schema, "contract_address", &mut columns.contract_address, response.contract_address);
    store(schema, "call_data", &mut columns.call_data, response.call_data);
    store(schema, "call_data_hash", &mut columns.call_data_hash, call_data_hash);
    store(schema, "output_data", &mut columns.output_data, response.output_data);
    store(schema, "output_data_hash", &mut columns.output_data_hash, output_data_hash);
    assert(columns@ =~= with_hashed_row(
        start,
        response@,
        call_data_hash@,
        option_view(output_data_hash),
        schema@,
    ));
}

/// process a call into columns
pub fn process_eth_call(response: EthCallRow, columns: &mut EthCalls, schema: &Table)
    requires
        old(columns).n_rows < u64::MAX,
    ensures
        final(columns)@ == with_call_row(old(columns)@, response@, schema@),
{
    let call_data_hash = slice_to_vec(&keccak256(response.call_data.as_slice()));
    let output_data_hash: Option<Vec<u8>> = match &response.output_data {
        Some(data) => Some(slice_to_vec(&keccak256(data.as_slice()))),
        None => None,
    };
    store_eth_call(response, call_data_hash, output_data_hash, columns, schema)
}

/// Whether every column of the schema has one entry per row, and the others none.
pub open spec fn call_columns_aligned(columns: EthCallColumns, schema: Seq<Seq<char>>) -> bool {
    &&& columns.block_number.len() == entries(schema, "block_number"@, columns.n_rows)
    &&& columns.contract_address.len() == entries(schema, "contract_address"@, columns.n_rows)
    &&& columns.call_data.len() == entries(schema, "call_data"@, columns.n_rows)
    &&& columns.call_data_hash.len() == entries(schema, "call_data_hash"@, columns.n_rows)
    &&& columns.output_data.len() == entries(schema, "output_data"@, columns.n_rows)
    &&& columns.output_data_hash.len() == entries(schema, "output_data_hash"@, columns.n_rows)
}

/// The columns stay aligned: every stored column has one entry per row.
pub proof fn law_call_columns_stay_aligned(
    columns: EthCallColumns,
    row: RowModel,
    schema: Seq<Seq<char>>,
)
    ensures
        call_columns_aligned(no_call_rows(), schema),
        call_columns_aligned(columns, schema) ==> call_columns_aligned(
            with_call_row(columns, row, schema),
            schema,
        ),
{
}

/// The columns with the row of one call added, where the dataset is requested.
pub open spec fn call_transformed(row: RowModel, columns: EthCallColumns, query: Query) -> Result<
    EthCallColumns,
    Seq<char>,
> {
    if query.schemas@.contains_key(Datatype::EthCalls) {
        Ok(with_call_row(columns, row, query.schemas@[Datatype::EthCalls]@))
    } else {
        Err(missing_schema(Datatype::EthCalls))
    }
}

impl Default for EthCalls {
    fn default() -> (columns: EthCalls)
        ensures
            columns@ == no_call_rows(),
    {
        let columns = EthCalls {
            n_rows: 0,
            block_number: Vec::new(),
            contract_address: Vec::new(),
            call_data: Vec::new(),
            call_data_hash: Vec::new(),
            output_data: Vec::new(),
            output_data_hash: Vec::new(),
            chain_id: Vec::new(),
        };
        assert(columns@ =~= no_call_rows());
        columns
    }
}

impl EthCalls {
    /// columns that are stored by default
    pub fn default_columns() -> (columns: Option<Vec<&'static str>>)
        ensures
            columns matches Some(columns) && views(columns@) == seq![
                "block_number"@,
                "contract_address"@,
                "call_data"@,
                "output_data"@,
                "chain_id"@,
            ],
    {
        let columns: Vec<&'static str> = vec![
            "block_number",
            "contract_address",
            "call_data",
            "output_data",
            "chain_id",
        ];
        assert(views(columns@) =~= seq![
            "block_number"@,
            "contract_address"@,
            "call_data"@,
            "output_data"@,
            "chain_id"@,
        ]);
        Some(columns)
    }

    /// columns that rows are sorted by
    pub fn default_sort() -> (columns: Option<Vec<&'static str>>)
        ensures
            columns matches Some(columns) && views(columns@) == seq![
                "block_number"@,
                "contract_address"@,
            ],
    {
        let columns: Vec<&'static str> = vec!["block_number", "contract_address"];
        assert(views(columns@) =~= seq!["block_number"@, "contract_address"@]);
        Some(columns)
    }

    /// blocks that are collected by default
    pub fn default_blocks() -> (blocks: Option<String>)
        ensures
            blocks matches Some(blocks) && blocks@ == "latest"@,
    {
        Some("latest".to_owned())
    }

    /// parameters that stand for others
    pub fn arg_aliases() -> (aliases: Option<Vec<(Dim, Dim)>>)
        ensures
            aliases matches Some(aliases) && aliases@ == seq![
                (Dim::Address, Dim::Contract),
                (Dim::ToAddress, Dim::Contract),
            ],
    {
        let aliases = vec![(Dim::Address, Dim::Contract), (Dim::ToAddress, Dim::Contract)];
        assert(aliases@ =~= seq![
            (Dim::Address, Dim::Contract),
            (Dim::ToAddress, Dim::Contract),
        ]);
        Some(aliases)
    }

    /// required parameters
    pub fn required_parameters() -> (parameters: Vec<Dim>)
        ensures
            parameters@ == seq![Dim::Contract, Dim::CallData],
    {
        let parameters = vec![Dim::Contract, Dim::CallData];
        assert(parameters@ =~= seq![Dim::Contract, Dim::CallData]);
        parameters
    }
}

impl Collect<ByBlock> for EthCalls {
    type Response = EthCallRow;

    open spec fn no_rows() -> EthCallColumns {
        no_call_rows()
    }

    open spec fn row_count(columns: EthCallColumns) -> nat {
        columns.n_rows
    }

    open spec fn most_rows(response: EthCallRow) -> nat {
        1
    }

    open spec fn has_parts(response: EthCallRow, query: Query) -> bool {
        true
    }

    open spec fn transformed(
        response: EthCallRow,
        columns: EthCallColumns,
        query: Query,
    ) -> Result<EthCallColumns, Seq<char>> {
        call_transformed(response@, columns, query)
    }

    fn empty() -> (columns: EthCalls) {
        EthCalls::default()
    }

    fn transform(response: EthCallRow, columns: &mut EthCalls, query: &Query) -> (done: R<()>) {
        let schema = query.schemas.get_schema(&Datatype::EthCalls)?;
        process_eth_call(response, columns, schema);
        Ok(())
    }
}

impl Collect<ByTransaction> for EthCalls {
    type Response = ();

    open spec fn no_rows() -> EthCallColumns {
        no_call_rows()
    }

    open spec fn row_count(columns: EthCallColumns) -> nat {
        columns.n_rows
    }

    open spec fn most_rows(response: ()) -> nat {
        0
    }

    open spec fn has_parts(response: (), query: Query) -> bool {
        true
    }

    open spec fn transformed(response: (), columns: EthCallColumns, query: Query) -> Result<
        EthCallColumns,
        Seq<char>,
    > {
        Err("CollectByTransaction not implemented"@)
    }

    fn empty() -> (columns: EthCalls) {
        EthCalls::default()
    }

    fn transform(response: (), columns: &mut EthCalls, query: &Query) -> (done: R<()>) {
        Err(err("CollectByTransaction not implemented"))
    }
}

impl CollectByTransaction for EthCalls {
    open spec fn collects_by_transaction() -> bool {
        false
    }

    fn can_collect_by_transaction() -> (can: bool)
        ensures
            !can,
    {
        false
    }
}

/// The column of `rows`, if the schema has it.
pub open spec fn column_of<T>(
    rows: Seq<R<EthCallRow>>,
    schema: Seq<Seq<char>>,
    name: Seq<char>,
    field: spec_fn(RowModel) -> T,
) -> Seq<T> {
    stored(
        schema,
        name,
        Seq::empty(),
        Seq::new(rows.len(), |i: int| field(rows[i]->Ok_0@)),
    )
}

/// Collecting answered calls gives columns that hold one entry per call, in the
/// order of the calls, and never mixes the parts of two calls.
pub proof fn law_columns_hold_the_calls(rows: Seq<R<EthCallRow>>, query: Query)
    requires
        query.schemas@.contains_key(Datatype::EthCalls),
        forall|i: int| 0 <= i < rows.len() ==> (#[trigger] rows[i]) is Ok,
    ensures
        ({
            let schema = query.schemas@[Datatype::EthCalls]@;
            all_transformed::<EthCalls, ByBlock>(rows, query) == Ok::<EthCallColumns, Seq<char>>(
                EthCallColumns {
                    n_rows: rows.len(),
                    block_number: column_of(
                        rows,
                        schema,
                        "block_number"@,
                        |row: RowModel| row.block_number,
                    ),
                    contract_address: column_of(
                        rows,
                        schema,
                        "contract_address"@,
                        |row: RowModel| row.contract_address,
                    ),
                    call_data: column_of(
                        rows,
                        schema,
                        "call_data"@,
                        |row: RowModel| row.call_data,
                    ),
                    call_data_hash: column_of(
                        rows,
                        schema,
                        "call_data_hash"@,
                        |row: RowModel| keccak256_hash(row.call_data),
                    ),
                    output_data: column_of(
                        rows,
                        schema,
                        "output_data"@,
                        |row: RowModel| row.output_data,
                    ),
                    output_data_hash: column_of(
                        rows,
                        schema,
                        "output_data_hash"@,
                        |row: RowModel| optional_hash(row.output_data),
                    ),
                    chain_id: Seq::empty(),
                },
            )
        }),
    decreases rows.len(),
{
    let schema = query.schemas@[Datatype::EthCalls]@;
    if rows.len() > 0 {
        let earlier = rows.drop_last();
        let row = rows.last()->Ok_0@;
        assert forall|i: int| 0 <= i < earlier.len() implies (#[trigger] earlier[i]) is Ok by {
            assert(earlier[i] == rows[i]);
        }
        law_columns_hold_the_calls(earlier, query);
        assert(rows[rows.len() - 1] is Ok);
        let before = all_transformed::<EthCalls, ByBlock>(earlier, query)->Ok_0;
        let after = all_transformed::<EthCalls, ByBlock>(rows, query)->Ok_0;
        assert(after == with_call_row(before, row, schema));
        assert(after.block_number =~= column_of(
            rows,
            schema,
            "block_number"@,
            |row: RowModel| row.block_number,
        ));
        assert(after.contract_address =~= column_of(
            rows,
            schema,
            "contract_address"@,
            |row: RowModel| row.contract_address,
        ));
        assert(after.call_data =~= column_of(
            rows,
            schema,
            "call_data"@,
            |row: RowModel| row.call_data,
        ));
        assert(after.call_data_hash =~= column_of(
            rows,
            schema,
            "call_data_hash"@,
            |row: RowModel| keccak256_hash(row.call_data),
        ));
        assert(after.output_data =~= column_of(
            rows,
            schema,
            "output_data"@,
            |row: RowModel| row.output_data,
        ));
        assert(after.output_data_hash =~= column_of(
            rows,
            schema,
            "output_data_hash"@,
            |row: RowModel| optional_hash(row.output_data),
        ));
        assert(after.chain_id =~= Seq::empty());
    } else {
        assert(all_transformed::<EthCalls, ByBlock>(rows, query) == Ok::<
            EthCallColumns,
            Seq<char>,
        >(no_call_rows()));
        assert(no_call_rows().block_number =~= column_of(
            rows,
            schema,
            "block_number"@,
            |row: RowModel| row.block_number,
        ));
        assert(no_call_rows().contract_address =~= column_of(
            rows,
            schema,
            "contract_address"@,
            |row: RowModel| row.contract_address,
        ));
        assert(no_call_rows().call_data =~= column_of(
            rows,
            schema,
            "call_data"@,
            |row: RowModel| row.call_data,
        ));
        assert(no_call_rows().call_data_hash =~= column_of(
            rows,
            schema,
            "call_data_hash"@,
            |row: RowModel| keccak256_hash(row.call_data),
        ));
        assert(no_call_rows().output_data =~= column_of(
            rows,
            schema,
            "output_data"@,
            |row: RowModel| row.output_data,
        ));
        assert(no_call_rows().output_data_hash =~= column_of(
            rows,
            schema,
            "output_data_hash"@,
            |row: RowModel| optional_hash(row.output_data),
        ));
    }
}

} // verus!
