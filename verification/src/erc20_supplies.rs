//! Total supplies of ERC-20 tokens.

use vstd::prelude::*;
use vstd::slice::{slice_subrange, slice_to_vec};

use crate::bytes::{
    be_value, lemma_option_views_push, lemma_views_push, low32, low_bits, option_view,
    option_views, views,
};
use crate::collection::{ByBlock, ByTransaction, Collect, CollectByTransaction};
use crate::datatypes::Datatype;
use crate::dim::Dim;
use crate::error::{
    collected, err, lemma_collected_next, lemma_collected_values, list_view, result_view, R,
};
use crate::eth_calls::{count_error, count_message, EthCall, EthCallModel};
use crate::multicall::{
    aggregate3_arguments, aggregate3_call_data, with_selector, Call3, CallResult,
};
use crate::rpc_params::{fixed, present, required_word, Params};
use crate::schema::{entries, lemma_stored_one, missing_schema, store, stored, Query};
use crate::signatures::{AGGREGATE3_SELECTOR, TOTAL_SUPPLY_SELECTOR};
use crate::u256::U256;

verus! {

/// columns for total supplies
#[derive(Debug)]
pub struct Erc20Supplies {
    /// number of stored supplies
    pub n_rows: u64,
    /// block number
    pub block_number: Vec<u32>,
    /// token contract
    pub erc20: Vec<Vec<u8>>,
    /// total supply, if the contract answered
    pub total_supply: Vec<Option<U256>>,
    /// chain id
    pub chain_id: Vec<u64>,
}

/// The model of the columns.
#[verifier::ext_equal]
pub struct SupplyColumns {
    pub n_rows: nat,
    pub block_number: Seq<u32>,
    pub erc20: Seq<Seq<u8>>,
    pub total_supply: Seq<Option<nat>>,
    pub chain_id: Seq<u64>,
}

impl View for Erc20Supplies {
    type V = SupplyColumns;

    open spec fn view(&self) -> SupplyColumns {
        SupplyColumns {
            n_rows: self.n_rows as nat,
            block_number: self.block_number@,
            erc20: views(self.erc20@),
            total_supply: option_views(self.total_supply@),
            chain_id: self.chain_id@,
        }
    }
}

/// Columns without rows.
pub open spec fn no_supply_rows() -> SupplyColumns {
    SupplyColumns {
        n_rows: 0,
        block_number: Seq::empty(),
        erc20: Seq::empty(),
        total_supply: Seq::empty(),
        chain_id: Seq::empty(),
    }
}

/// The supply of one token at one block.
#[derive(Debug)]
pub struct SupplyRow {
    /// block number
    pub block_number: u32,
    /// token contract
    pub erc20: Vec<u8>,
    /// total supply, if the contract answered
    pub total_supply: Option<U256>,
}

/// The model of the supply of one token at one block.
pub struct SupplyModel {
    pub block_number: u32,
    pub erc20: Seq<u8>,
    pub total_supply: Option<nat>,
}

impl View for SupplyRow {
    type V = SupplyModel;

    open spec fn view(&self) -> SupplyModel {
        SupplyModel {
            block_number: self.block_number,
            erc20: self.erc20@,
            total_supply: option_view(self.total_supply),
        }
    }
}

// --- one call per row ---

/// The `totalSupply()` request that the parameters describe, or the first thing
/// wrong with them.
///
/// The address follows the selector; the contract ignores it.
pub open spec fn direct_supply_call(params: Params) -> Result<EthCallModel, Seq<char>> {
    match present(option_view(params.address), "address not specified"@) {
        Err(message) => Err(message),
        Ok(address) => match present(params.block_number, "block_number not specified"@) {
            Err(message) => Err(message),
            Ok(block) => match fixed(address, 20, "address"@) {
                Err(message) => Err(message),
                Ok(to) => Ok(
                    EthCallModel { to, data: TOTAL_SUPPLY_SELECTOR@ + address, block },
                ),
            },
        },
    }
}

/// The row of a request that was answered with `output`.
pub open spec fn answered_supply(call: EthCallModel, output: Option<Seq<u8>>) -> SupplyModel {
    SupplyModel {
        block_number: low_bits(call.block),
        erc20: call.to,
        total_supply: match output {
            Some(output) => Some(be_value(output)),
            None => None,
        },
    }
}

/// The columns with one row added, in the columns of the schema.
pub open spec fn with_supply_row(
    columns: SupplyColumns,
    row: SupplyModel,
    schema: Seq<Seq<char>>,
) -> SupplyColumns {
    SupplyColumns {
        n_rows: columns.n_rows + 1,
        block_number: stored(
            schema,
            "block_number"@,
            columns.block_number,
            seq![row.block_number],
        ),
        erc20: stored(schema, "erc20"@, columns.erc20, seq![row.erc20]),
        total_supply: stored(
            schema,
            "total_supply"@,
            columns.total_supply,
            seq![row.total_supply],
        ),
        ..columns
    }
}

/// The columns with one row added, where the dataset is requested.
pub open spec fn supply_transformed(
    row: SupplyModel,
    columns: SupplyColumns,
    query: Query,
) -> Result<SupplyColumns, Seq<char>> {
    if query.schemas@.contains_key(Datatype::Erc20Supplies) {
        Ok(with_supply_row(columns, row, query.schemas@[Datatype::Erc20Supplies]@))
    } else {
        Err(missing_schema(Datatype::Erc20Supplies))
    }
}

// --- batched rows ---

/// The inner call of a row: `totalSupply()`, which takes no arguments.
pub open spec fn inner_supply_call(params: Params, require_success: bool) -> Result<
    (Seq<u8>, bool, Seq<u8>),
    Seq<char>,
> {
    match required_word(option_view(params.address), "address not specified"@, 20, "address"@) {
        Err(message) => Err(message),
        Ok(target) => Ok((target, !require_success, TOTAL_SUPPLY_SELECTOR@)),
    }
}

/// The inner calls of a row: the one call.
pub open spec fn supply_calls(params: Params, require_success: bool) -> Result<
    Seq<(Seq<u8>, bool, Seq<u8>)>,
    Seq<char>,
> {
    match inner_supply_call(params, require_success) {
        Err(message) => Err(message),
        Ok(call) => Ok(seq![call]),
    }
}

/// The inner calls of a batch of rows, or the first thing wrong with them.
pub open spec fn inner_supply_calls(batch: Seq<Params>, require_success: bool) -> Result<
    Seq<(Seq<u8>, bool, Seq<u8>)>,
    Seq<char>,
> {
    collected(batch.map_values(|params: Params| inner_supply_call(params, require_success)))
}

/// The supply that an outcome holds: the first word of a successful reply.
pub open spec fn outcome_supply(outcome: (bool, Seq<u8>)) -> Option<nat> {
    if outcome.0 && outcome.1.len() >= 32 {
        Some(be_value(outcome.1.take(32)))
    } else {
        None
    }
}

/// The row of the outcome of a row's call.
pub open spec fn decoded_supply(params: Params, outcome: (bool, Seq<u8>)) -> Result<
    SupplyModel,
    Seq<char>,
> {
    match present(params.block_number, "block_number not specified"@) {
        Err(message) => Err(message),
        Ok(block) => match present(option_view(params.address), "address not specified"@) {
            Err(message) => Err(message),
            Ok(erc20) => Ok(
                SupplyModel {
                    block_number: low_bits(block),
                    erc20,
                    total_supply: outcome_supply(outcome),
                },
            ),
        },
    }
}

/// The rows of a batch with its outcomes: one row per call, in order.
pub open spec fn decoded_supplies(batch: Seq<Params>, outcomes: Seq<(bool, Seq<u8>)>) -> Result<
    Seq<SupplyModel>,
    Seq<char>,
> {
    if outcomes.len() != batch.len() {
        Err(count_message(outcomes.len(), batch.len()))
    } else {
        collected(Seq::new(batch.len(), |i: int| decoded_supply(batch[i], outcomes[i])))
    }
}

/// The row of a direct call with its output, or what is wrong with the call.
pub open spec fn direct_supply(params: Params, output: Option<Seq<u8>>) -> Result<
    SupplyModel,
    Seq<char>,
> {
    match direct_supply_call(params) {
        Ok(call) => Ok(answered_supply(call, output)),
        Err(message) => Err(message),
    }
}

/// The rows of a batch that failed: one row per call, none with a supply.
pub open spec fn failed_supplies(batch: Seq<Params>) -> Result<Seq<SupplyModel>, Seq<char>> {
    collected(batch.map_values(|params: Params| direct_supply(params, None)))
}

/// What became of the aggregate request of a batch.
#[derive(Debug)]
pub enum SupplyReply {
    /// it gave these outcomes
    Outcomes(Vec<CallResult>),
    /// it reverted
    Reverted,
    /// it could not be made, or its reply not be read
    Failed,
}

/// The model of what became of an aggregate request.
pub enum SupplyReplyModel {
    Outcomes(Seq<(bool, Seq<u8>)>),
    Reverted,
    Failed,
}

impl View for SupplyReply {
    type V = SupplyReplyModel;

    open spec fn view(&self) -> SupplyReplyModel {
        match self {
            SupplyReply::Outcomes(outcomes) => SupplyReplyModel::Outcomes(views(outcomes@)),
            SupplyReply::Reverted => SupplyReplyModel::Reverted,
            SupplyReply::Failed => SupplyReplyModel::Failed,
        }
    }
}

/// Whether every inner call succeeded.
pub open spec fn no_revert(outcomes: Seq<(bool, Seq<u8>)>) -> bool {
    forall|i: int| 0 <= i < outcomes.len() ==> (#[trigger] outcomes[i]).0
}

/// Whether the reply shows that a call reverted.
pub open spec fn supply_reverted(reply: SupplyReplyModel) -> bool {
    match reply {
        SupplyReplyModel::Outcomes(outcomes) => !no_revert(outcomes),
        SupplyReplyModel::Reverted => true,
        SupplyReplyModel::Failed => false,
    }
}

/// The rows of a batch after its aggregate request, or none where its calls are
/// to be made directly.
///
/// Where every call has to succeed, a revert fails the whole batch. Otherwise a
/// request without one outcome per call is replaced by direct calls.
pub open spec fn aggregated_supplies(
    batch: Seq<Params>,
    reply: SupplyReplyModel,
    require_success: bool,
) -> Result<Option<Seq<SupplyModel>>, Seq<char>> {
    if require_success && supply_reverted(reply) {
        match failed_supplies(batch) {
            Ok(rows) => Ok(Some(rows)),
            Err(message) => Err(message),
        }
    } else {
        match reply {
            SupplyReplyModel::Outcomes(outcomes) => if outcomes.len() == batch.len() {
                match decoded_supplies(batch, outcomes) {
                    Ok(rows) => Ok(Some(rows)),
                    Err(message) => Err(message),
                }
            } else {
                Ok(None)
            },
            _ => Ok(None),
        }
    }
}

/// Whether every direct call succeeded.
pub open spec fn all_answered(outputs: Seq<Option<Seq<u8>>>) -> bool {
    forall|i: int| 0 <= i < outputs.len() ==> (#[trigger] outputs[i]) is Some
}

/// The rows of a batch whose calls were made directly. Where every call has to
/// succeed, a failed call fails the whole batch.
pub open spec fn direct_supplies(
    batch: Seq<Params>,
    outputs: Seq<Option<Seq<u8>>>,
    require_success: bool,
) -> Result<Seq<SupplyModel>, Seq<char>> {
    if require_success && !all_answered(outputs) {
        failed_supplies(batch)
    } else {
        collected(Seq::new(batch.len(), |i: int| direct_supply(batch[i], outputs[i])))
    }
}

impl Erc20Supplies {
    /// columns that rows are sorted by
    pub fn default_sort() -> (columns: Option<Vec<&'static str>>)
        ensures
            columns matches Some(columns) && views(columns@) == seq!["erc20"@, "block_number"@],
    {
        let columns: Vec<&'static str> = vec!["erc20", "block_number"];
        assert(views(columns@) =~= seq!["erc20"@, "block_number"@]);
        Some(columns)
    }

    /// required parameters
    pub fn required_parameters() -> (parameters: Vec<Dim>)
        ensures
            parameters@ == seq![Dim::Address],
    {
        let parameters = vec![Dim::Address];
        assert(parameters@ =~= seq![Dim::Address]);
        parameters
    }

    /// parameters that stand for others
    pub fn arg_aliases() -> (aliases: Option<Vec<(Dim, Dim)>>)
        ensures
            aliases matches Some(aliases) && aliases@ == seq![(Dim::Contract, Dim::Address)],
    {
        let aliases = vec![(Dim::Contract, Dim::Address)];
        assert(aliases@ =~= seq![(Dim::Contract, Dim::Address)]);
        Some(aliases)
    }

    /// blocks that are collected by default
    pub fn default_blocks() -> (blocks: Option<String>)
        ensures
            blocks matches Some(blocks) && blocks@ == "latest"@,
    {
        Some("latest".to_owned())
    }

    /// the `totalSupply()` request for one row
    ///
    /// Errors if the address or the block number is unset, or the address is not
    /// exactly 20 bytes.
    pub fn supply_call(request: &Params) -> (call: R<EthCall>)
        ensures
            result_view(call) == direct_supply_call(*request),
    {
        let data = with_selector(&TOTAL_SUPPLY_SELECTOR, request.address()?);
        let block = request.ethers_block_number()?;
        let to = request.ethers_address()?;
        Ok(EthCall { to, data, block })
    }

    /// the row of an answered request; a failed call has no supply
    pub fn supply_row(call: &EthCall, output: Option<Vec<u8>>) -> (row: SupplyRow)
        requires
            output matches Some(output) ==> output@.len() <= 32,
        ensures
            row@ == answered_supply(call@, option_view(output)),
    {
        let total_supply: Option<U256> = match &output {
            Some(output) => Some(U256::from_be_slice(output.as_slice())),
            None => None,
        };
        SupplyRow { block_number: low32(call.block), erc20: slice_to_vec(&call.to), total_supply }
    }

    fn inner_call(params: &Params, require_success: bool) -> (call: R<Call3>)
        ensures
            result_view(call) == inner_supply_call(*params, require_success),
    {
        let target = params.ethers_address()?;
        let call_data = slice_to_vec(&TOTAL_SUPPLY_SELECTOR);
        Ok(Call3 { target, allow_failure: !require_success, call_data })
    }

    /// the inner calls of one row of a batch
    pub fn calls_for_row(params: &Params, require_success: bool) -> (calls: R<Vec<Call3>>)
        ensures
            list_view(calls) == supply_calls(*params, require_success),
    {
        let call = Self::inner_call(params, require_success)?;
        let mut calls: Vec<Call3> = Vec::new();
        calls.push(call);
        assert(views(calls@) =~= seq![call@]);
        Ok(calls)
    }

    /// the row of the outcomes of its inner calls
    pub fn decode_row(params: &Params, results: &[CallResult]) -> (row: R<SupplyRow>)
        requires
            results@.len() > 0,
        ensures
            result_view(row) == decoded_supply(*params, results@[0]@),
    {
        let result = &results[0];
        let total_supply: Option<U256> = if result.success && result.return_data.len() >= 32 {
            let word = slice_subrange(result.return_data.as_slice(), 0, 32);
            assert(word@ =~= result.return_data@.take(32));
            Some(U256::from_be_slice(word))
        } else {
            None
        };
        let block = params.block_number()?;
        let erc20 = params.address()?;
        Ok(SupplyRow { block_number: low32(block), erc20, total_supply })
    }

    /// call data of the `aggregate3` request for a batch of rows
    pub fn supply_request(batch: &Vec<Params>, require_success: bool) -> (data: R<Vec<u8>>)
        ensures
            match inner_supply_calls(batch@, require_success) {
                Ok(calls) => data matches Ok(data) && data@ == AGGREGATE3_SELECTOR@
                    + aggregate3_arguments(calls),
                Err(message) => data matches Err(error) && error@ == message,
            },
    {
        let mut calls: Vec<Call3> = Vec::new();
        let ghost results = batch@.map_values(
            |params: Params| inner_supply_call(params, require_success),
        );
        let mut i: usize = 0;
        assert(views(calls@) =~= Seq::empty());
        while i < batch.len()
            invariant
                i <= batch@.len(),
                results == batch@.map_values(
                    |params: Params| inner_supply_call(params, require_success),
                ),
                collected(results.take(i as int)) == Ok::<
                    Seq<(Seq<u8>, bool, Seq<u8>)>,
                    Seq<char>,
                >(views(calls@)),
            decreases batch@.len() - i,
        {
            proof {
                lemma_collected_next(results, i as int);
            }
            let call = Self::inner_call(&batch[i], require_success)?;
            let ghost before = calls@;
            calls.push(call);
            assert(views(calls@) == views(before).push(call@));
            i += 1;
        }
        assert(results.take(results.len() as int) =~= results);
        Ok(aggregate3_call_data(&calls))
    }

    /// the rows of a batch from the decoded outcomes: one row per call, in order
    pub fn supply_rows(batch: &Vec<Params>, outcomes: &Vec<CallResult>) -> (rows: R<Vec<SupplyRow>>)
        ensures
            list_view(rows) == decoded_supplies(batch@, views(outcomes@)),
    {
        if outcomes.len() != batch.len() {
            return Err(count_error(outcomes.len(), batch.len()));
        }
        let mut rows: Vec<SupplyRow> = Vec::new();
        let ghost models = views(outcomes@);
        let ghost results = Seq::new(batch@.len(), |i: int| decoded_supply(batch@[i], models[i]));
        let mut i: usize = 0;
        assert(views(rows@) =~= Seq::empty());
        while i < batch.len()
            invariant
                i <= batch@.len(),
                outcomes@.len() == batch@.len(),
                models == views(outcomes@),
                results == Seq::new(batch@.len(), |i: int| decoded_supply(batch@[i], models[i])),
                collected(results.take(i as int)) == Ok::<Seq<SupplyModel>, Seq<char>>(
                    views(rows@),
                ),
            decreases batch@.len() - i,
        {
            proof {
                lemma_collected_next(results, i as int);
            }
            let results_of_row = slice_subrange(outcomes.as_slice(), i, i + 1);
            let row = Self::decode_row(&batch[i], results_of_row)?;
            let ghost before = rows@;
            rows.push(row);
            assert(views(rows@) == views(before).push(row@));
            i += 1;
        }
        assert(results.take(results.len() as int) =~= results);
        Ok(rows)
    }

    /// the rows of a batch that failed: one row per call, none with a supply
    pub fn failed_rows(batch: &Vec<Params>) -> (rows: R<Vec<SupplyRow>>)
        ensures
            list_view(rows) == failed_supplies(batch@),
    {
        let mut rows: Vec<SupplyRow> = Vec::new();
        let ghost results = batch@.map_values(|params: Params| direct_supply(params, None));
        let mut i: usize = 0;
        assert(views(rows@) =~= Seq::empty());
        while i < batch.len()
            invariant
                i <= batch@.len(),
                results == batch@.map_values(|params: Params| direct_supply(params, None)),
                collected(results.take(i as int)) == Ok::<Seq<SupplyModel>, Seq<char>>(
                    views(rows@),
                ),
            decreases batch@.len() - i,
        {
            proof {
                lemma_collected_next(results, i as int);
            }
            let call = Self::supply_call(&batch[i])?;
            let row = Self::supply_row(&call, None);
            let ghost before = rows@;
            rows.push(row);
            assert(views(rows@) == views(before).push(row@));
            i += 1;
        }
        assert(results.take(results.len() as int) =~= results);
        Ok(rows)
    }

    /// the rows of a batch after its aggregate request, or none where its calls
    /// are to be made directly
    pub fn aggregated_rows(
        batch: &Vec<Params>,
        reply: &SupplyReply,
        require_success: bool,
    ) -> (rows: R<Option<Vec<SupplyRow>>>)
        ensures
            match aggregated_supplies(batch@, reply@, require_success) {
                Ok(Some(expected)) => rows matches Ok(Some(rows)) && views(rows@) == expected,
                Ok(None) => rows matches Ok(None),
                Err(message) => rows matches Err(error) && error@ == message,
            },
    {
        if require_success {
            let reverted: bool = match reply {
                SupplyReply::Outcomes(outcomes) => !all_succeeded(outcomes),
                SupplyReply::Reverted => true,
                SupplyReply::Failed => false,
            };
            if reverted {
                let rows = Self::failed_rows(batch)?;
                return Ok(Some(rows));
            }
        }
        match reply {
            SupplyReply::Outcomes(outcomes) => {
                if outcomes.len() != batch.len() {
                    return Ok(None);
                }
                let rows = Self::supply_rows(batch, outcomes)?;
                Ok(Some(rows))
            },
            _ => Ok(None),
        }
    }

    /// the rows of a batch whose calls were made directly; a failed call has no
    /// supply, or fails the whole batch where every call has to succeed
    pub fn direct_rows(
        batch: &Vec<Params>,
        outputs: Vec<Option<Vec<u8>>>,
        require_success: bool,
    ) -> (rows: R<Vec<SupplyRow>>)
        requires
            outputs@.len() == batch@.len(),
            forall|i: int|
                0 <= i < outputs@.len() ==> (#[trigger] outputs@[i] matches Some(output)
                    ==> output@.len() <= 32),
        ensures
            list_view(rows) == direct_supplies(
                batch@,
                option_views(outputs@),
                require_success,
            ),
    {
        let ghost models = option_views(outputs@);
        if require_success && !all_some(&outputs) {
            return Self::failed_rows(batch);
        }
        let mut rows: Vec<SupplyRow> = Vec::new();
        let ghost results = Seq::new(batch@.len(), |i: int| direct_supply(batch@[i], models[i]));
        let ghost all = outputs@;
        let n = batch.len();
        let mut i: usize = 0;
        assert(views(rows@) =~= Seq::empty());
        for output in it: outputs
            invariant
                it.seq() == all,
                all == outputs@,
                i == it.index(),
                all.len() == n,
                n == batch@.len(),
                models == option_views(all),
                require_success ==> all_answered(models),
                forall|i: int|
                    0 <= i < all.len() ==> (#[trigger] all[i] matches Some(output)
                        ==> output@.len() <= 32),
                results == Seq::new(batch@.len(), |i: int| direct_supply(batch@[i], models[i])),
                collected(results.take(i as int)) == Ok::<Seq<SupplyModel>, Seq<char>>(
                    views(rows@),
                ),
        {
            proof {
                lemma_collected_next(results, i as int);
            }
            assert(output == all[i as int]);
            let call = Self::supply_call(&batch[i])?;
            let row = Self::supply_row(&call, output);
            let ghost before = rows@;
            rows.push(row);
            assert(views(rows@) == views(before).push(row@));
            i += 1;
        }
        assert(results.take(results.len() as int) =~= results);
        Ok(rows)
    }
}

fn all_succeeded(outcomes: &Vec<CallResult>) -> (all: bool)
    ensures
        all == no_revert(views(outcomes@)),
{
    let mut i: usize = 0;
    while i < outcomes.len()
        invariant
            i <= outcomes@.len(),
            forall|j: int| 0 <= j < i ==> (#[trigger] outcomes@[j]).success,
        decreases outcomes@.len() - i,
    {
        if !outcomes[i].success {
            assert(!views(outcomes@)[i as int].0);
            return false;
        }
        i += 1;
    }
    true
}

fn all_some(outputs: &Vec<Option<Vec<u8>>>) -> (all: bool)
    ensures
        all == all_answered(option_views(outputs@)),
{
    let mut i: usize = 0;
    while i < outputs.len()
        invariant
            i <= outputs@.len(),
            forall|j: int| 0 <= j < i ==> (#[trigger] outputs@[j]) is Some,
        decreases outputs@.len() - i,
    {
        if outputs[i].is_none() {
            assert(option_views(outputs@)[i as int] is None);
            return false;
        }
        i += 1;
    }
    true
}

impl Default for Erc20Supplies {
    fn default() -> (columns: Erc20Supplies)
        ensures
            columns@ == no_supply_rows(),
    {
        let columns = Erc20Supplies {
            n_rows: 0,
            block_number: Vec::new(),
            erc20: Vec::new(),
            total_supply: Vec::new(),
            chain_id: Vec::new(),
        };
        assert(columns@ =~= no_supply_rows());
        columns
    }
}

/// Whether every column of the schema has one entry per row, and the others none.
pub open spec fn supply_columns_aligned(columns: SupplyColumns, schema: Seq<Seq<char>>) -> bool {
    &&& columns.block_number.len() == entries(schema, "block_number"@, columns.n_rows)
    &&& columns.erc20.len() == entries(schema, "erc20"@, columns.n_rows)
    &&& columns.total_supply.len() == entries(schema, "total_supply"@, columns.n_rows)
}

/// The columns stay aligned: every stored column has one entry per row.
pub proof fn law_supply_columns_stay_aligned(
    columns: SupplyColumns,
    row: SupplyModel,
    schema: Seq<Seq<char>>,
)
    ensures
        supply_columns_aligned(no_supply_rows(), schema),
        supply_columns_aligned(columns, schema) ==> supply_columns_aligned(
            with_supply_row(columns, row, schema),
            schema,
        ),
{
}

/// Whether no row has a supply.
pub open spec fn no_supply(rows: Seq<SupplyModel>) -> bool {
    forall|i: int| 0 <= i < rows.len() ==> (#[trigger] rows[i]).total_supply is None
}

/// Where every call has to succeed, a revert marks the whole batch as failed: its
/// aggregate request, or else its direct calls, give one row per call, none with
/// a supply.
pub proof fn law_revert_fails_all_supplies(
    batch: Seq<Params>,
    reply: SupplyReplyModel,
    outputs: Seq<Option<Seq<u8>>>,
)
    ensures
        supply_reverted(reply) ==> (aggregated_supplies(batch, reply, true) matches Ok(rows)
            ==> rows matches Some(rows) && rows.len() == batch.len() && no_supply(rows)),
        !all_answered(outputs) ==> (direct_supplies(batch, outputs, true) matches Ok(rows)
            ==> rows.len() == batch.len() && no_supply(rows)),
{
    let results = batch.map_values(|params: Params| direct_supply(params, None));
    lemma_collected_values(results);
    if failed_supplies(batch) is Ok {
        let rows = failed_supplies(batch)->Ok_0;
        assert forall|i: int| 0 <= i < rows.len() implies (#[trigger] rows[i]).total_supply
            is None by {
            assert(results[i] == Ok::<SupplyModel, Seq<char>>(rows[i]));
        }
    }
}

/// Batching does not change a row: where the contract fails or returns one word,
/// the batched row is the row of the direct call. Both call the same contract,
/// and the batched call data is what the direct call data starts with.
pub proof fn law_batched_supplies_are_the_direct_ones(
    params: Params,
    outcome: (bool, Seq<u8>),
    require_success: bool,
)
    requires
        direct_supply_call(params) is Ok,
        outcome.0 ==> outcome.1.len() == 32,
    ensures
        ({
            let call = direct_supply_call(params)->Ok_0;
            let output = if outcome.0 {
                Some(outcome.1)
            } else {
                None
            };
            &&& decoded_supply(params, outcome) == Ok::<SupplyModel, Seq<char>>(
                answered_supply(call, output),
            )
            &&& supply_calls(params, require_success) matches Ok(calls) && calls.len() == 1
                && calls[0].0 == call.to && calls[0].2.is_prefix_of(call.data)
        }),
{
    assert(outcome.0 ==> outcome.1.take(32) =~= outcome.1);
    let call = direct_supply_call(params)->Ok_0;
    assert(call.data.subrange(0, 4) =~= TOTAL_SUPPLY_SELECTOR@);
}

impl Collect<ByBlock> for Erc20Supplies {
    type Response = SupplyRow;

    open spec fn no_rows() -> SupplyColumns {
        no_supply_rows()
    }

    open spec fn row_count(columns: SupplyColumns) -> nat {
        columns.n_rows
    }

    open spec fn most_rows(response: SupplyRow) -> nat {
        1
    }

    open spec fn has_parts(response: SupplyRow, query: Query) -> bool {
        true
    }

    open spec fn transformed(response: SupplyRow, columns: SupplyColumns, query: Query) -> Result<
        SupplyColumns,
        Seq<char>,
    > {
        supply_transformed(response@, columns, query)
    }

    fn empty() -> (columns: Erc20Supplies) {
        Erc20Supplies::default()
    }

    fn transform(response: SupplyRow, columns: &mut Erc20Supplies, query: &Query) -> (done: R<()>) {
        broadcast use {lemma_views_push, lemma_option_views_push, lemma_stored_one};

        let schema = query.schemas.get_schema(&Datatype::Erc20Supplies)?;
        let ghost start = columns@;
        columns.n_rows = columns.n_rows + 1;
        store(schema, "block_number", &mut columns.block_number, response.block_number);
        store(schema, "erc20", &mut columns.erc20, response.erc20);
        store(schema, "total_supply", &mut columns.total_supply, response.total_supply);
        assert(columns@ =~= with_supply_row(start, response@, schema@));
        Ok(())
    }
}

impl Collect<ByTransaction> for Erc20Supplies {
    type Response = ();

    open spec fn no_rows() -> SupplyColumns {
        no_supply_rows()
    }

    open spec fn row_count(columns: SupplyColumns) -> nat {
        columns.n_rows
    }

    open spec fn most_rows(response: ()) -> nat {
        0
    }

    open spec fn has_parts(response: (), query: Query) -> bool {
        true
    }

    open spec fn transformed(response: (), columns: SupplyColumns, query: Query) -> Result<
        SupplyColumns,
        Seq<char>,
    > {
        Err("CollectByTransaction not implemented"@)
    }

    fn empty() -> (columns: Erc20Supplies) {
        Erc20Supplies::default()
    }

    fn transform(response: (), columns: &mut Erc20Supplies, query: &Query) -> (done: R<()>) {
        Err(err("CollectByTransaction not implemented"))
    }
}

impl CollectByTransaction for Erc20Supplies {
    open spec fn collects_by_transaction() -> bool {
        false
    }

    fn can_collect_by_transaction() -> (can: bool)
        ensures
            !can,
    {
        false
    }
}

} // verus!
