//! What calls ask for and what their rows hold, one by one and in batches, over
//! the given parameters and the replies.

use vstd::prelude::*;

use crate::batch_run::{failed_row, resumed, waiting, BatchReply, BatchRun, ReplyModel, RunModel};
use crate::bytes::be_value;
use crate::call_plan::{
    batch_cap, batches_at, batches_of, block_of, blocks_of, calls_at, eligible, eligible_calls,
    law_batches_are_sound, lemma_blocks, lemma_calls_at_new_block, planned, CallBatch, CallPlan,
};
use crate::erc20_supplies::{
    aggregated_supplies, answered_supply, decoded_supplies, decoded_supply, direct_supplies,
    direct_supply, direct_supply_call, failed_supplies, inner_supply_call, inner_supply_calls,
    no_supply_rows, supply_calls, SupplyModel, SupplyReply, SupplyReplyModel,
};
use crate::eth_calls::{
    answered_row, inner_call, inner_calls, no_call_rows, outcome_row, outcome_rows, single_call,
    EthCall, EthCallModel, RowModel,
};
use crate::error::collected;
use crate::multicall::{deploy_block, Call3, CallResult};
use crate::rpc_params::Params;
use crate::schema::Query;
use crate::seqs::{lemma_filter_same, lemma_filter_twice, lemma_push_contains};
use crate::signatures::TOTAL_SUPPLY_SELECTOR;
use crate::text::decimal;
use crate::value_laws::law_collected_is_all_or_the_first_error;

verus! {

/// The models of requests, batch calls and outcomes hold their fields.
pub proof fn law_request_models_hold_the_fields(
    call: EthCall,
    inner: Call3,
    outcome: CallResult,
    batch: CallBatch,
    plan: CallPlan,
    i: int,
)
    ensures
        call@.to == call.to@,
        call@.data == call.data@,
        call@.block == call.block,
        inner@ == (inner.target@, inner.allow_failure, inner.call_data@),
        outcome@ == (outcome.success, outcome.return_data@),
        batch@ == (batch.block, batch.calls@),
        plan@.singles == plan.singles@,
        plan@.batches.len() == plan.batches@.len(),
        0 <= i < plan.batches@.len() ==> plan@.batches[i] == plan.batches@[i]@,
{
}

/// The models of a run and of the replies to it hold their fields.
pub proof fn law_run_models_hold_the_fields(
    run: BatchRun,
    reply: BatchReply,
    supplies: SupplyReply,
    i: int,
)
    ensures
        run@.direct == run.direct,
        run@.require_success == run.require_success,
        run@.pending.len() == run.pending@.len(),
        0 <= i < run.pending@.len() ==> run@.pending[i] == run.pending@[i]@,
        run@.rows.len() == run.rows@.len(),
        0 <= i < run.rows@.len() ==> run@.rows[i] == run.rows@[i]@,
        match reply {
            BatchReply::Rows(rows) => reply@ matches ReplyModel::Rows(models) && models.len()
                == rows@.len() && (0 <= i < rows@.len() ==> models[i] == rows@[i]@),
            BatchReply::Reverted => reply@ is Reverted,
            BatchReply::Failed => reply@ is Failed,
            BatchReply::Row(row) => reply@ matches ReplyModel::Row(model) && model == row@,
        },
        match supplies {
            SupplyReply::Outcomes(outcomes) => supplies@ matches SupplyReplyModel::Outcomes(models)
                && models.len() == outcomes@.len() && (0 <= i < outcomes@.len() ==> models[i]
                == outcomes@[i]@),
            SupplyReply::Reverted => supplies@ is Reverted,
            SupplyReply::Failed => supplies@ is Failed,
        },
{
}

/// Fresh columns hold nothing.
pub proof fn law_fresh_columns_are_empty()
    ensures
        no_call_rows().n_rows == 0,
        no_call_rows().block_number.len() == 0,
        no_call_rows().contract_address.len() == 0,
        no_call_rows().call_data.len() == 0,
        no_call_rows().call_data_hash.len() == 0,
        no_call_rows().output_data.len() == 0,
        no_call_rows().output_data_hash.len() == 0,
        no_call_rows().chain_id.len() == 0,
        no_supply_rows().n_rows == 0,
        no_supply_rows().block_number.len() == 0,
        no_supply_rows().erc20.len() == 0,
        no_supply_rows().total_supply.len() == 0,
        no_supply_rows().chain_id.len() == 0,
{
}

// --- calls ---

/// The message about a word of the wrong width.
pub open spec fn width_text(name: Seq<char>, width: nat, got: nat) -> Seq<char> {
    name + " must be "@ + decimal(width) + " bytes, got "@ + decimal(got)
}

/// A call is made exactly where a contract of 20 bytes, call data and a block are
/// given, and then of that contract, with those data, at that block. Else the
/// message is about the first of them that is wrong.
pub proof fn law_call_is_what_is_given(params: Params)
    ensures
        single_call(params) is Ok <==> params.contract is Some && params.contract->0@.len() == 20
            && params.call_data is Some && params.block_number is Some,
        single_call(params) matches Ok(call) ==> {
            &&& call.to == params.contract->0@
            &&& call.data == params.call_data->0@
            &&& call.block == params.block_number->0
        },
        single_call(params) matches Err(message) ==> message == (if params.contract is None {
            "contract not specified"@
        } else if params.contract->0@.len() != 20 {
            width_text("contract"@, 20, params.contract->0@.len())
        } else if params.call_data is None {
            "call_data not specified"@
        } else {
            "block_number not specified"@
        }),
{
}

/// The output of a row is the returned data itself, of any length, and the rest of
/// the row is the call; the block number is kept in its low 32 bits.
pub proof fn law_answered_row_keeps_the_output(call: EthCallModel, output: Option<Seq<u8>>)
    ensures
        answered_row(call, output).output_data == output,
        answered_row(call, output).contract_address == call.to,
        answered_row(call, output).call_data == call.data,
        answered_row(call, output).block_number == call.block % 0x1_0000_0000,
{
}

/// The row of an inner call has all the returned data where the call succeeded,
/// and no output where it failed; the rest of the row is the call. There is a row
/// exactly where the block, the contract and the call data are given.
pub proof fn law_outcome_row_keeps_the_output(params: Params, success: bool, data: Seq<u8>)
    ensures
        outcome_row(params, (success, data)) is Ok <==> params.block_number is Some
            && params.contract is Some && params.call_data is Some,
        outcome_row(params, (success, data)) matches Ok(row) ==> {
            &&& success ==> row.output_data == Some(data)
            &&& !success ==> row.output_data is None
            &&& row.contract_address == params.contract->0@
            &&& row.call_data == params.call_data->0@
            &&& row.block_number == params.block_number->0 % 0x1_0000_0000
        },
        outcome_row(params, (success, data)) matches Err(message) ==> message == (
        if params.block_number is None {
            "block_number not specified"@
        } else if params.contract is None {
            "contract not specified"@
        } else {
            "call_data not specified"@
        }),
{
}

/// The message about a reply with the wrong number of outcomes.
pub open spec fn count_text(outcomes: nat, calls: nat) -> Seq<char> {
    "multicall returned "@ + decimal(outcomes) + " results for a "@ + decimal(calls)
        + " call batch"@
}

/// An inner call is made exactly where a contract of 20 bytes and call data are
/// given: of that contract, with those data, and it may fail exactly where success
/// is not required. Else the message is about the first of them that is wrong.
pub proof fn law_inner_call_is_what_is_given(params: Params, require_success: bool)
    ensures
        inner_call(params, require_success) is Ok <==> params.contract is Some
            && params.contract->0@.len() == 20 && params.call_data is Some,
        inner_call(params, require_success) matches Ok(call) ==> call == (
            params.contract->0@,
            !require_success,
            params.call_data->0@,
        ),
        inner_call(params, require_success) matches Err(message) ==> message == (
        if params.contract is None {
            "contract not specified"@
        } else if params.contract->0@.len() != 20 {
            width_text("contract"@, 20, params.contract->0@.len())
        } else {
            "call_data not specified"@
        }),
{
}

/// A batch asks each contract for its call data, in order, and lets a call fail
/// exactly where success is not required. Where a call cannot be made, the batch
/// has the error of the first such call.
pub proof fn law_batch_asks_for_every_call(batch: Seq<Params>, require_success: bool, i: int)
    requires
        0 <= i < batch.len(),
    ensures
        inner_calls(batch, require_success) matches Ok(calls) ==> {
            &&& calls.len() == batch.len()
            &&& batch[i].contract is Some && batch[i].contract->0@.len() == 20
            &&& batch[i].call_data is Some
            &&& calls[i] == (batch[i].contract->0@, !require_success, batch[i].call_data->0@)
        },
        inner_calls(batch, require_success) matches Err(message) ==> exists|j: int|
            0 <= j < batch.len() && inner_call(#[trigger] batch[j], require_success) == Err::<
                (Seq<u8>, bool, Seq<u8>),
                Seq<char>,
            >(message) && forall|k: int|
                0 <= k < j ==> inner_call(#[trigger] batch[k], require_success) is Ok,
{
    let results = batch.map_values(|params: Params| inner_call(params, require_success));
    law_collected_is_all_or_the_first_error(results);
    assert(results[i] == inner_call(batch[i], require_success));
    if inner_calls(batch, require_success) is Err {
        let message = inner_calls(batch, require_success)->Err_0;
        let j = choose|j: int|
            0 <= j < results.len() && #[trigger] results[j] == Err::<
                (Seq<u8>, bool, Seq<u8>),
                Seq<char>,
            >(message) && forall|k: int| 0 <= k < j ==> (#[trigger] results[k]) is Ok;
        assert(results[j] == inner_call(batch[j], require_success));
        assert forall|k: int| 0 <= k < j implies inner_call(
            #[trigger] batch[k],
            require_success,
        ) is Ok by {
            assert(results[k] == inner_call(batch[k], require_success));
        }
    }
}

/// A reply gives one row per call, in order, each with all the data that its own
/// outcome returned; a reply with another number of outcomes gives none.
pub proof fn law_batch_rows_keep_their_outputs(
    batch: Seq<Params>,
    outcomes: Seq<(bool, Seq<u8>)>,
    i: int,
)
    requires
        0 <= i < batch.len(),
    ensures
        outcomes.len() != batch.len() ==> outcome_rows(batch, outcomes) == Err::<
            Seq<RowModel>,
            Seq<char>,
        >(count_text(outcomes.len(), batch.len())),
        outcome_rows(batch, outcomes) matches Ok(rows) ==> {
            &&& outcomes.len() == batch.len()
            &&& rows.len() == batch.len()
            &&& outcomes[i].0 ==> rows[i].output_data == Some(outcomes[i].1)
            &&& !outcomes[i].0 ==> rows[i].output_data is None
            &&& batch[i].contract matches Some(contract) && rows[i].contract_address == contract@
            &&& batch[i].call_data matches Some(data) && rows[i].call_data == data@
            &&& batch[i].block_number matches Some(block) && rows[i].block_number == block
                % 0x1_0000_0000
        },
        outcome_rows(batch, outcomes) matches Err(message) ==> outcomes.len() != batch.len()
            || exists|j: int|
            0 <= j < batch.len() && outcome_row(#[trigger] batch[j], outcomes[j]) == Err::<
                RowModel,
                Seq<char>,
            >(message) && forall|k: int|
                0 <= k < j ==> outcome_row(#[trigger] batch[k], outcomes[k]) is Ok,
{
    if outcomes.len() == batch.len() {
        let results = Seq::new(batch.len(), |i: int| outcome_row(batch[i], outcomes[i]));
        law_collected_is_all_or_the_first_error(results);
        assert(results[i] == outcome_row(batch[i], outcomes[i]));
        law_outcome_row_keeps_the_output(batch[i], outcomes[i].0, outcomes[i].1);
        if outcome_rows(batch, outcomes) is Err {
            let message = outcome_rows(batch, outcomes)->Err_0;
            let j = choose|j: int|
                0 <= j < results.len() && #[trigger] results[j] == Err::<RowModel, Seq<char>>(
                    message,
                ) && forall|k: int| 0 <= k < j ==> (#[trigger] results[k]) is Ok;
            assert(results[j] == outcome_row(batch[j], outcomes[j]));
            assert forall|k: int| 0 <= k < j implies outcome_row(
                #[trigger] batch[k],
                outcomes[k],
            ) is Ok by {
                assert(results[k] == outcome_row(batch[k], outcomes[k]));
            }
        }
    }
}

// --- supplies ---

/// A supply is asked for exactly where an address of 20 bytes and a block are
/// given: of that contract, at that block, with the selector and the address as
/// data. Else the message is about the first of them that is wrong.
pub proof fn law_supply_call_is_what_is_given(params: Params)
    ensures
        direct_supply_call(params) is Ok <==> params.address is Some && params.address->0@.len()
            == 20 && params.block_number is Some,
        direct_supply_call(params) matches Ok(call) ==> {
            &&& call.to == params.address->0@
            &&& call.data == TOTAL_SUPPLY_SELECTOR@ + params.address->0@
            &&& call.block == params.block_number->0
        },
        direct_supply_call(params) matches Err(message) ==> message == (
        if params.address is None {
            "address not specified"@
        } else if params.block_number is None {
            "block_number not specified"@
        } else {
            width_text("address"@, 20, params.address->0@.len())
        }),
{
}

/// The supply of a direct call is the number that the returned bytes write, and
/// there is none where the call failed; the rest of the row is the call.
pub proof fn law_answered_supply_is_what_was_returned(
    call: EthCallModel,
    output: Option<Seq<u8>>,
)
    ensures
        match output {
            Some(bytes) => answered_supply(call, output).total_supply == Some(be_value(bytes)),
            None => answered_supply(call, output).total_supply is None,
        },
        answered_supply(call, output).erc20 == call.to,
        answered_supply(call, output).block_number == call.block % 0x1_0000_0000,
{
}

/// A batched row makes one call: of the given address of 20 bytes, with the bare
/// selector, which may fail exactly where success is not required.
pub proof fn law_batched_supply_makes_one_call(params: Params, require_success: bool)
    ensures
        supply_calls(params, require_success) is Ok <==> params.address is Some
            && params.address->0@.len() == 20,
        supply_calls(params, require_success) matches Ok(calls) ==> calls == seq![
            (params.address->0@, !require_success, TOTAL_SUPPLY_SELECTOR@),
        ],
        supply_calls(params, require_success) matches Err(message) ==> message == (
        if params.address is None {
            "address not specified"@
        } else {
            width_text("address"@, 20, params.address->0@.len())
        }),
{
}

/// A batch of supplies makes one call per row, in order.
pub proof fn law_supply_batch_asks_for_every_row(
    batch: Seq<Params>,
    require_success: bool,
    i: int,
)
    requires
        0 <= i < batch.len(),
    ensures
        inner_supply_calls(batch, require_success) matches Ok(calls) ==> {
            &&& calls.len() == batch.len()
            &&& batch[i].address matches Some(address) && address@.len() == 20 && calls[i] == (
                address@,
                !require_success,
                TOTAL_SUPPLY_SELECTOR@,
            )
        },
        inner_supply_calls(batch, require_success) matches Err(message) ==> exists|j: int|
            0 <= j < batch.len() && supply_calls(#[trigger] batch[j], require_success) == Err::<
                Seq<(Seq<u8>, bool, Seq<u8>)>,
                Seq<char>,
            >(message) && forall|k: int|
                0 <= k < j ==> supply_calls(#[trigger] batch[k], require_success) is Ok,
{
    let results = batch.map_values(|params: Params| inner_supply_call(params, require_success));
    law_collected_is_all_or_the_first_error(results);
    assert(results[i] == inner_supply_call(batch[i], require_success));
    if inner_supply_calls(batch, require_success) is Err {
        let message = inner_supply_calls(batch, require_success)->Err_0;
        let j = choose|j: int|
            0 <= j < results.len() && #[trigger] results[j] == Err::<
                (Seq<u8>, bool, Seq<u8>),
                Seq<char>,
            >(message) && forall|k: int| 0 <= k < j ==> (#[trigger] results[k]) is Ok;
        assert(results[j] == inner_supply_call(batch[j], require_success));
        assert forall|k: int| 0 <= k < j implies supply_calls(
            #[trigger] batch[k],
            require_success,
        ) is Ok by {
            assert(results[k] == inner_supply_call(batch[k], require_success));
        }
    }
}

/// The supply of a batched row is the number that the first 32 returned bytes
/// write; there is none where the call failed or returned fewer. The rest of the
/// row is what was given.
pub proof fn law_decoded_supply_is_the_first_word(params: Params, success: bool, data: Seq<u8>)
    ensures
        decoded_supply(params, (success, data)) is Ok <==> params.block_number is Some
            && params.address is Some,
        decoded_supply(params, (success, data)) matches Ok(row) ==> {
            &&& success && data.len() >= 32 ==> row.total_supply == Some(be_value(data.take(32)))
            &&& !success || data.len() < 32 ==> row.total_supply is None
            &&& row.erc20 == params.address->0@
            &&& row.block_number == params.block_number->0 % 0x1_0000_0000
        },
        decoded_supply(params, (success, data)) matches Err(message) ==> message == (
        if params.block_number is None {
            "block_number not specified"@
        } else {
            "address not specified"@
        }),
{
}

/// Whether the row is that of the given block and address.
pub open spec fn is_supply_of(row: SupplyModel, params: Params) -> bool {
    &&& params.address matches Some(address) && row.erc20 == address@
    &&& params.block_number matches Some(block) && row.block_number == block % 0x1_0000_0000
}

/// A reply gives one supply per row, in order, each from its own outcome; a reply
/// with another number of outcomes gives none.
pub proof fn law_supply_rows_belong_to_their_outcomes(
    batch: Seq<Params>,
    outcomes: Seq<(bool, Seq<u8>)>,
    i: int,
)
    requires
        0 <= i < batch.len(),
    ensures
        outcomes.len() != batch.len() ==> decoded_supplies(batch, outcomes) == Err::<
            Seq<SupplyModel>,
            Seq<char>,
        >(count_text(outcomes.len(), batch.len())),
        decoded_supplies(batch, outcomes) matches Ok(rows) ==> {
            &&& outcomes.len() == batch.len()
            &&& rows.len() == batch.len()
            &&& is_supply_of(rows[i], batch[i])
            &&& outcomes[i].0 && outcomes[i].1.len() >= 32 ==> rows[i].total_supply == Some(
                be_value(outcomes[i].1.take(32)),
            )
            &&& !outcomes[i].0 || outcomes[i].1.len() < 32 ==> rows[i].total_supply is None
        },
        decoded_supplies(batch, outcomes) matches Err(message) ==> outcomes.len() != batch.len()
            || exists|j: int|
            0 <= j < batch.len() && decoded_supply(#[trigger] batch[j], outcomes[j]) == Err::<
                SupplyModel,
                Seq<char>,
            >(message) && forall|k: int|
                0 <= k < j ==> decoded_supply(#[trigger] batch[k], outcomes[k]) is Ok,
{
    if outcomes.len() == batch.len() {
        let results = Seq::new(batch.len(), |i: int| decoded_supply(batch[i], outcomes[i]));
        law_collected_is_all_or_the_first_error(results);
        assert(results[i] == decoded_supply(batch[i], outcomes[i]));
        if decoded_supplies(batch, outcomes) is Err {
            let message = decoded_supplies(batch, outcomes)->Err_0;
            let j = choose|j: int|
                0 <= j < results.len() && #[trigger] results[j] == Err::<SupplyModel, Seq<char>>(
                    message,
                ) && forall|k: int| 0 <= k < j ==> (#[trigger] results[k]) is Ok;
            assert(results[j] == decoded_supply(batch[j], outcomes[j]));
            assert forall|k: int| 0 <= k < j implies decoded_supply(
                #[trigger] batch[k],
                outcomes[k],
            ) is Ok by {
                assert(results[k] == decoded_supply(batch[k], outcomes[k]));
            }
        }
    }
}

/// Whether a supply can be asked for.
pub open spec fn can_be_asked(params: Params) -> bool {
    params.address is Some && params.address->0@.len() == 20 && params.block_number is Some
}

/// Whether there is one row per call, in order, and none has a supply.
pub open spec fn failed_alike(rows: Seq<SupplyModel>, batch: Seq<Params>) -> bool {
    &&& rows.len() == batch.len()
    &&& forall|i: int|
        0 <= i < rows.len() ==> is_supply_of(#[trigger] rows[i], batch[i])
            && rows[i].total_supply is None
}

/// Whether the message is that of the first supply that cannot be asked for.
pub open spec fn is_first_fault(message: Seq<char>, batch: Seq<Params>) -> bool {
    exists|j: int|
        0 <= j < batch.len() && direct_supply_call(#[trigger] batch[j]) == Err::<
            EthCallModel,
            Seq<char>,
        >(message) && forall|k: int| 0 <= k < j ==> can_be_asked(#[trigger] batch[k])
}

/// A failed batch has one row per call, in order, none with a supply; where a
/// supply cannot be asked for, it has the error of the first such call.
pub proof fn law_failed_supplies_are_alike(batch: Seq<Params>)
    ensures
        failed_supplies(batch) is Ok <==> forall|i: int|
            0 <= i < batch.len() ==> can_be_asked(#[trigger] batch[i]),
        failed_supplies(batch) matches Ok(rows) ==> failed_alike(rows, batch),
        failed_supplies(batch) matches Err(message) ==> is_first_fault(message, batch),
{
    let results = batch.map_values(|params: Params| direct_supply(params, None));
    law_collected_is_all_or_the_first_error(results);
    if failed_supplies(batch) is Ok {
        let rows = failed_supplies(batch)->Ok_0;
        assert forall|i: int| 0 <= i < batch.len() implies can_be_asked(#[trigger] batch[i])
            && is_supply_of(rows[i], batch[i]) && rows[i].total_supply is None by {
            assert(results[i] == direct_supply(batch[i], None));
        }
        assert forall|i: int| 0 <= i < rows.len() implies is_supply_of(#[trigger] rows[i], batch[i])
            && rows[i].total_supply is None by {
            assert(can_be_asked(batch[i]));
        }
    } else {
        let message = failed_supplies(batch)->Err_0;
        let j = choose|j: int|
            0 <= j < results.len() && #[trigger] results[j] == Err::<SupplyModel, Seq<char>>(
                message,
            ) && forall|k: int| 0 <= k < j ==> (#[trigger] results[k]) is Ok;
        assert(results[j] == direct_supply(batch[j], None));
        assert(!can_be_asked(batch[j]));
        assert forall|k: int| 0 <= k < j implies can_be_asked(#[trigger] batch[k]) by {
            assert(results[k] == direct_supply(batch[k], None));
        }
    }
}

/// What an aggregate request of supplies leads to. Where success is required, a
/// reverted request or a failed outcome fails the whole batch alike. Otherwise one
/// outcome per call gives the rows of the outcomes, and anything else leads to
/// direct calls.
pub proof fn law_supply_replies_are_settled(
    batch: Seq<Params>,
    reply: SupplyReplyModel,
    require_success: bool,
)
    ensures
        ({
            let reverted = reply is Reverted || (reply matches SupplyReplyModel::Outcomes(outcomes)
                && exists|i: int| 0 <= i < outcomes.len() && !(#[trigger] outcomes[i]).0);
            let settled = aggregated_supplies(batch, reply, require_success);
            if require_success && reverted {
                &&& settled is Ok <==> forall|i: int|
                    0 <= i < batch.len() ==> can_be_asked(#[trigger] batch[i])
                &&& settled matches Ok(rows) ==> rows matches Some(rows) && failed_alike(
                    rows,
                    batch,
                )
                &&& settled matches Err(message) ==> is_first_fault(message, batch)
            } else {
                match reply {
                    SupplyReplyModel::Outcomes(outcomes) => if outcomes.len() == batch.len() {
                        match decoded_supplies(batch, outcomes) {
                            Ok(rows) => settled == Ok::<Option<Seq<SupplyModel>>, Seq<char>>(
                                Some(rows),
                            ),
                            Err(message) => settled == Err::<
                                Option<Seq<SupplyModel>>,
                                Seq<char>,
                            >(message),
                        }
                    } else {
                        settled == Ok::<Option<Seq<SupplyModel>>, Seq<char>>(None)
                    },
                    _ => settled == Ok::<Option<Seq<SupplyModel>>, Seq<char>>(None),
                }
            }
        }),
{
    law_failed_supplies_are_alike(batch);
}

/// Direct calls of a batch give one row per call, in order, with the number that
/// its own output writes. Where success is required, one failed call fails the
/// whole batch alike. There are no rows where a call could not be made.
pub proof fn law_direct_supplies_belong_to_their_outputs(
    batch: Seq<Params>,
    outputs: Seq<Option<Seq<u8>>>,
    require_success: bool,
    i: int,
)
    requires
        outputs.len() == batch.len(),
        0 <= i < batch.len(),
    ensures
        ({
            let failed = exists|j: int| 0 <= j < outputs.len() && (#[trigger] outputs[j]) is None;
            let settled = direct_supplies(batch, outputs, require_success);
            &&& settled is Ok <==> forall|j: int|
                0 <= j < batch.len() ==> can_be_asked(#[trigger] batch[j])
            &&& settled matches Err(message) ==> is_first_fault(message, batch)
            &&& settled matches Ok(rows) ==> {
                if require_success && failed {
                    failed_alike(rows, batch)
                } else {
                    &&& rows.len() == batch.len()
                    &&& is_supply_of(rows[i], batch[i])
                    &&& match outputs[i] {
                        Some(output) => rows[i].total_supply == Some(be_value(output)),
                        None => rows[i].total_supply is None,
                    }
                }
            }
        }),
{
    law_failed_supplies_are_alike(batch);
    let results = Seq::new(batch.len(), |i: int| direct_supply(batch[i], outputs[i]));
    law_collected_is_all_or_the_first_error(results);
    assert(results[i] == direct_supply(batch[i], outputs[i]));
    match collected(results) {
        Ok(rows) => {
            assert forall|j: int| 0 <= j < batch.len() implies can_be_asked(
                #[trigger] batch[j],
            ) by {
                assert(results[j] == direct_supply(batch[j], outputs[j]));
            }
        },
        Err(message) => {
            let j = choose|j: int|
                0 <= j < results.len() && #[trigger] results[j] == Err::<SupplyModel, Seq<char>>(
                    message,
                ) && forall|k: int| 0 <= k < j ==> (#[trigger] results[k]) is Ok;
            assert(results[j] == direct_supply(batch[j], outputs[j]));
            assert(!can_be_asked(batch[j]));
            assert forall|k: int| 0 <= k < j implies can_be_asked(#[trigger] batch[k]) by {
                assert(results[k] == direct_supply(batch[k], outputs[k]));
            }
        },
    }
}

// --- runs ---

/// Whether the reply shows a call without an output.
pub open spec fn lacks_an_output(reply: ReplyModel) -> bool {
    ||| reply is Reverted
    ||| reply matches ReplyModel::Row(row) && row.output_data is None
    ||| reply matches ReplyModel::Rows(rows) && exists|i: int|
        0 <= i < rows.len() && (#[trigger] rows[i]).output_data is None
}

/// How a run goes on where no revert fails its batch. Answered calls leave with
/// their rows, outputs included, after the rows of the earlier ones. A failed
/// request changes no row: its calls are cut into a first half, which comes next,
/// and a second half, which comes after it, or its only call is made directly.
pub proof fn law_run_goes_on_with_its_rows(run: RunModel, reply: ReplyModel)
    requires
        run.pending.len() > 0,
        !run.require_success || !lacks_an_output(reply),
    ensures
        resumed(run, reply) matches Ok(after) && {
            let n = run.pending.len() as int;
            let next = run.pending[n - 1];
            &&& after.require_success == run.require_success
            &&& forall|i: int| 0 <= i < n - 1 ==> #[trigger] after.pending[i] == run.pending[i]
            &&& match reply {
                ReplyModel::Rows(rows) => {
                    &&& after.rows == run.rows + rows
                    &&& after.pending.len() == n - 1
                    &&& !after.direct
                },
                ReplyModel::Row(row) => {
                    &&& after.rows == run.rows.push(row)
                    &&& after.pending.len() == n - 1
                    &&& !after.direct
                },
                _ => {
                    &&& after.rows == run.rows
                    &&& next.len() > 1 ==> {
                        &&& after.pending.len() == n + 1
                        &&& after.direct == run.direct
                        &&& after.pending[n].len() == next.len() as int / 2
                        &&& after.pending[n] + after.pending[n - 1] == next
                    }
                    &&& next.len() <= 1 ==> after.pending == run.pending && after.direct
                },
            }
        },
{
    let next = run.pending.last();
    if !(reply is Rows) && !(reply is Row) && next.len() > 1 {
        let mid = next.len() as int / 2;
        assert(next.take(mid) + next.skip(mid) =~= next);
    }
}

/// How a run ends where success is required and a call has no output: no request
/// is left, the answered calls keep their rows without the outputs, and each
/// waiting call has a row without an output.
pub proof fn law_run_ends_without_outputs(run: RunModel, reply: ReplyModel)
    requires
        run.require_success,
        lacks_an_output(reply),
    ensures
        resumed(run, reply) is Ok <==> forall|i: int|
            0 <= i < waiting(run.pending).len() ==> single_call(
                #[trigger] waiting(run.pending)[i],
            ) is Ok,
        resumed(run, reply) matches Err(message) ==> exists|j: int|
            0 <= j < waiting(run.pending).len() && single_call(#[trigger] waiting(run.pending)[j])
                == Err::<EthCallModel, Seq<char>>(message) && forall|k: int|
                0 <= k < j ==> single_call(#[trigger] waiting(run.pending)[k]) is Ok,
        resumed(run, reply) matches Ok(after) ==> {
            let n = run.rows.len() as int;
            let calls = waiting(run.pending);
            &&& after.pending.len() == 0
            &&& !after.direct
            &&& after.require_success
            &&& after.rows.len() == n + calls.len()
            &&& forall|i: int|
                0 <= i < n ==> {
                    &&& (#[trigger] after.rows[i]).output_data is None
                    &&& after.rows[i].block_number == run.rows[i].block_number
                    &&& after.rows[i].contract_address == run.rows[i].contract_address
                    &&& after.rows[i].call_data == run.rows[i].call_data
                }
            &&& forall|i: int|
                0 <= i < calls.len() ==> {
                    &&& after.rows[n + i].output_data is None
                    &&& (#[trigger] calls[i]).contract matches Some(contract) && after.rows[n
                        + i].contract_address == contract@
                    &&& calls[i].call_data matches Some(data) && after.rows[n + i].call_data
                        == data@
                    &&& calls[i].block_number matches Some(block) && after.rows[n
                        + i].block_number == block % 0x1_0000_0000
                }
        },
{
    let calls = waiting(run.pending);
    let results = calls.map_values(|call: Params| failed_row(call));
    law_collected_is_all_or_the_first_error(results);
    if resumed(run, reply) is Ok {
        let n = run.rows.len() as int;
        let after = resumed(run, reply)->Ok_0;
        assert forall|i: int| 0 <= i < calls.len() implies single_call(#[trigger] calls[i]) is Ok
            && Ok::<RowModel, Seq<char>>(after.rows[n + i]) == failed_row(calls[i]) by {
            assert(results[i] == failed_row(calls[i]));
        }
    } else {
        let message = resumed(run, reply)->Err_0;
        let j = choose|j: int|
            0 <= j < results.len() && #[trigger] results[j] == Err::<RowModel, Seq<char>>(message)
                && forall|k: int| 0 <= k < j ==> (#[trigger] results[k]) is Ok;
        assert(results[j] == failed_row(calls[j]));
        assert forall|k: int| 0 <= k < j implies single_call(#[trigger] calls[k]) is Ok by {
            assert(results[k] == failed_row(calls[k]));
        }
    }
}

/// The waiting calls are those of the pending batches, the last batch first.
pub proof fn law_waiting_calls_are_the_pending_ones(pending: Seq<Seq<Params>>, next: Seq<Params>)
    ensures
        waiting(Seq::empty()) == Seq::<Params>::empty(),
        waiting(pending.push(next)) == next + waiting(pending),
{
    assert(pending.push(next).drop_last() =~= pending);
}

// --- plans ---

/// Multicall3 is known on eight chains, each from its own block on.
pub proof fn law_deploy_blocks(chain_id: u64)
    ensures
        deploy_block(1) == Some(14_353_601u64),
        deploy_block(10) == Some(4_286_263u64),
        deploy_block(56) == Some(15_921_452u64),
        deploy_block(100) == Some(21_022_491u64),
        deploy_block(137) == Some(25_770_160u64),
        deploy_block(8_453) == Some(5_022u64),
        deploy_block(42_161) == Some(7_654_707u64),
        deploy_block(43_114) == Some(11_907_934u64),
        deploy_block(chain_id) is Some ==> chain_id == 1 || chain_id == 10 || chain_id == 56
            || chain_id == 100 || chain_id == 137 || chain_id == 8_453 || chain_id == 42_161
            || chain_id == 43_114,
{
}

/// Whether a call is at a block; a call without one counts as at block 0.
pub open spec fn is_at(call: Params, block: u64) -> bool {
    match call.block_number {
        Some(given) => given == block,
        None => block == 0,
    }
}

/// Whether a call is at a block where Multicall3 is deployed.
pub open spec fn is_after_deployment(call: Params, chain_id: u64) -> bool {
    deploy_block(chain_id) matches Some(deployed) && match call.block_number {
        Some(given) => given >= deployed,
        None => deployed == 0,
    }
}

/// The calls of the batches at a block, one batch after the other.
pub open spec fn calls_of_block(batches: Seq<(u64, Seq<Params>)>, block: u64) -> Seq<Params>
    decreases batches.len(),
{
    if batches.len() == 0 {
        Seq::empty()
    } else {
        calls_of_block(batches.drop_last(), block) + if batches.last().0 == block {
            batches.last().1
        } else {
            Seq::empty()
        }
    }
}

/// With batching, the calls before the deployment of Multicall3 are made one by
/// one, in order, and all others in batches of their block, in order. A batch has
/// at most as many calls as the cap, 150 where none is given, and is short only
/// where no other batch of its block follows. Without batching, all calls are made
/// one by one.
pub proof fn law_plan_batches_what_it_can(
    calls: Seq<Params>,
    chain_id: u64,
    query: Query,
    block: u64,
    i: int,
    j: int,
)
    ensures
        !query.multicall ==> planned(calls, chain_id, query).batches.len() == 0 && planned(
            calls,
            chain_id,
            query,
        ).singles == calls,
        query.multicall ==> {
            let plan = planned(calls, chain_id, query);
            let cap: int = if query.multicall_batch_size == 0 {
                150
            } else {
                query.multicall_batch_size as int
            };
            &&& plan.singles == calls.filter(|call: Params| !is_after_deployment(call, chain_id))
            &&& calls_of_block(plan.batches, block) == calls.filter(
                |call: Params| is_after_deployment(call, chain_id) && is_at(call, block),
            )
            &&& 0 <= i < plan.batches.len() ==> 1 <= plan.batches[i].1.len() <= cap
            &&& 0 <= i < j < plan.batches.len() && plan.batches[i].0 == plan.batches[j].0
                ==> plan.batches[i].1.len() == cap
        },
{
    if query.multicall {
        let deployed = deploy_block(chain_id);
        let plan = planned(calls, chain_id, query);
        let batched = eligible_calls(calls, deployed);
        let size = batch_cap(query.multicall_batch_size);
        lemma_filter_same(
            calls,
            |call: Params| !eligible(call, deployed),
            |call: Params| !is_after_deployment(call, chain_id),
        );
        lemma_blocks(batched);
        lemma_calls_of_block(batched, blocks_of(batched), size, block);
        lemma_filter_twice(
            calls,
            |call: Params| eligible(call, deployed),
            |call: Params| block_of(call) == block,
            |call: Params| is_after_deployment(call, chain_id) && is_at(call, block),
        );
        if !blocks_of(batched).contains(block) {
            lemma_calls_at_new_block(batched, block);
        }
        if 0 <= i < plan.batches.len() {
            law_batches_are_sound(calls, chain_id, query, i);
        }
        lemma_full_batches(batched, blocks_of(batched), size);
    }
}

proof fn lemma_calls_of_block_add(
    first: Seq<(u64, Seq<Params>)>,
    second: Seq<(u64, Seq<Params>)>,
    block: u64,
)
    ensures
        calls_of_block(first + second, block) == calls_of_block(first, block) + calls_of_block(
            second,
            block,
        ),
    decreases second.len(),
{
    if second.len() == 0 {
        assert(first + second =~= first);
        assert(calls_of_block(first, block) + Seq::empty() =~= calls_of_block(first, block));
    } else {
        lemma_calls_of_block_add(first, second.drop_last(), block);
        assert((first + second).drop_last() =~= first + second.drop_last());
        assert(calls_of_block(first + second, block) =~= calls_of_block(first, block)
            + calls_of_block(second, block));
    }
}

proof fn lemma_calls_of_batches(at: u64, calls: Seq<Params>, size: nat, block: u64)
    requires
        size > 0,
    ensures
        calls_of_block(batches_of(at, calls, size), block) == (if at == block {
            calls
        } else {
            Seq::empty()
        }),
    decreases calls.len(),
{
    reveal_with_fuel(calls_of_block, 2);
    if calls.len() == 0 {
        assert(calls =~= Seq::empty());
    } else if calls.len() <= size {
        let batches = seq![(at, calls)];
        assert(batches.drop_last() =~= Seq::empty());
        assert(calls_of_block(batches, block) =~= (if at == block {
            calls
        } else {
            Seq::empty()
        }));
    } else {
        let first = seq![(at, calls.take(size as int))];
        let rest = calls.skip(size as int);
        lemma_calls_of_batches(at, rest, size, block);
        lemma_calls_of_block_add(first, batches_of(at, rest, size), block);
        assert(first.drop_last() =~= Seq::empty());
        assert(calls_of_block(first, block) =~= (if at == block {
            calls.take(size as int)
        } else {
            Seq::empty()
        }));
        assert(calls.take(size as int) + rest =~= calls);
        assert(Seq::<Params>::empty() + Seq::<Params>::empty() =~= Seq::empty());
    }
}

proof fn lemma_calls_of_block(calls: Seq<Params>, blocks: Seq<u64>, size: nat, block: u64)
    requires
        size > 0,
        blocks.no_duplicates(),
    ensures
        calls_of_block(batches_at(calls, blocks, size), block) == (if blocks.contains(block) {
            calls_at(calls, block)
        } else {
            Seq::empty()
        }),
    decreases blocks.len(),
{
    if blocks.len() > 0 {
        let earlier = blocks.drop_last();
        let last = blocks.last();
        lemma_calls_of_block(calls, earlier, size, block);
        lemma_calls_of_batches(last, calls_at(calls, last), size, block);
        lemma_calls_of_block_add(
            batches_at(calls, earlier, size),
            batches_of(last, calls_at(calls, last), size),
            block,
        );
        assert(blocks =~= earlier.push(last));
        lemma_push_contains(earlier, last, block);
        if earlier.contains(last) {
            let k = choose|k: int| 0 <= k < earlier.len() && earlier[k] == last;
            assert(blocks[k] == blocks[blocks.len() - 1]);
        }
        assert(Seq::<Params>::empty() + calls_at(calls, last) =~= calls_at(calls, last));
        assert(calls_at(calls, block) + Seq::<Params>::empty() =~= calls_at(calls, block));
        assert(Seq::<Params>::empty() + Seq::<Params>::empty() =~= Seq::empty());
    }
}

proof fn lemma_full_batches_of(at: u64, calls: Seq<Params>, size: nat)
    ensures
        forall|i: int|
            0 <= i < batches_of(at, calls, size).len() ==> {
                &&& (#[trigger] batches_of(at, calls, size)[i]).0 == at
                &&& i + 1 < batches_of(at, calls, size).len() ==> batches_of(
                    at,
                    calls,
                    size,
                )[i].1.len() == size
            },
    decreases calls.len(),
{
    if size > 0 && calls.len() > size {
        lemma_full_batches_of(at, calls.skip(size as int), size);
        let later = batches_of(at, calls.skip(size as int), size);
        let all = batches_of(at, calls, size);
        assert forall|i: int| 0 <= i < all.len() implies {
            &&& (#[trigger] all[i]).0 == at
            &&& i + 1 < all.len() ==> all[i].1.len() == size
        } by {
            if i > 0 {
                assert(all[i] == later[i - 1]);
            }
        }
    }
}

proof fn lemma_full_batches(calls: Seq<Params>, blocks: Seq<u64>, size: nat)
    requires
        blocks.no_duplicates(),
    ensures
        forall|i: int|
            0 <= i < batches_at(calls, blocks, size).len() ==> blocks.contains(
                (#[trigger] batches_at(calls, blocks, size)[i]).0,
            ),
        forall|i: int, j: int|
            0 <= i < j < batches_at(calls, blocks, size).len() && (#[trigger] batches_at(
                calls,
                blocks,
                size,
            )[i]).0 == (#[trigger] batches_at(calls, blocks, size)[j]).0 ==> batches_at(
                calls,
                blocks,
                size,
            )[i].1.len() == size,
    decreases blocks.len(),
{
    if blocks.len() > 0 {
        let earlier = blocks.drop_last();
        let last = blocks.last();
        let before = batches_at(calls, earlier, size);
        let here = batches_of(last, calls_at(calls, last), size);
        let all = batches_at(calls, blocks, size);
        lemma_full_batches(calls, earlier, size);
        lemma_full_batches_of(last, calls_at(calls, last), size);
        assert(blocks =~= earlier.push(last));
        let n = before.len() as int;
        assert(!earlier.contains(last)) by {
            if earlier.contains(last) {
                let k = choose|k: int| 0 <= k < earlier.len() && earlier[k] == last;
                assert(blocks[k] == blocks[blocks.len() - 1]);
            }
        }
        assert forall|i: int| 0 <= i < all.len() implies blocks.contains((#[trigger] all[i]).0)
            && (i < n ==> earlier.contains(all[i].0)) && (i >= n ==> all[i].0 == last) by {
            lemma_push_contains(earlier, last, all[i].0);
            if i < n {
                assert(all[i] == before[i]);
            } else {
                assert(all[i] == here[i - n]);
            }
        }
        assert forall|i: int, j: int|
            0 <= i < j < all.len() && (#[trigger] all[i]).0 == (#[trigger] all[j]).0 implies
            all[i].1.len() == size by {
            if j < n {
                assert(all[i] == before[i] && all[j] == before[j]);
            } else if i >= n {
                assert(all[i] == here[i - n]);
            }
        }
    }
}

} // verus!
