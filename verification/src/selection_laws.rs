//! What log requests ask for, and which logs become rows, over the given
//! parameters and the fields of the logs.

use vstd::prelude::*;

use crate::bytes::{option_view, views};
use crate::collection::{all_transformed, ByBlock, ByTransaction, Collect};
use crate::datatypes::{Datatype, MultiDatatype};
use crate::erc20_wrapper_events::{
    law_wrapper_rows_accumulate, with_wrapper_rows, wrapper_log_filter, WrapperColumns,
};
use crate::error::R;
use crate::filter::{admits, list_allows, topic_at, Filter, FilterModel};
use crate::log::{
    erc20_approval, erc20_transfer, erc721_transfer, has_shape, has_topic, wrapper_event, Log,
    LogModel,
};
use crate::log_events::{
    fanned_out, if_requested, is_row, is_transaction_row, law_union_topic0_is_the_union,
    lemma_one_word, no_log_rows, own_filter, own_shape, requested_members, topic_fits,
    union_filter, with_rows, LogEvents, LogEventsModel, MemberModel,
};
use crate::row_laws::{gained_events, holds_no_events, law_processing_adds_the_events};
use crate::rpc_params::{log_filter, Params};
use crate::schema::{Query, Table};
use crate::seqs::{lemma_filter_same, lemma_filter_twice};
use crate::signatures::{
    APPROVAL_SIGNATURE_HASH, DEPOSIT_SIGNATURE_HASH, TRANSFER_SIGNATURE_HASH,
    WITHDRAWAL_SIGNATURE_HASH,
};
use crate::text::decimal;

verus! {

/// The model of a log holds each of its fields, and that of a filter each of its.
pub proof fn law_log_models_hold_the_fields(log: Log, filter: Filter, i: int, n: int, j: int)
    requires
        0 <= n < 4,
    ensures
        log@.address == log.address@,
        log@.topics.len() == log.topics@.len(),
        0 <= i < log.topics@.len() ==> log@.topics[i] == log.topics@[i]@,
        log@.data == log.data@,
        log@.block_number == log.block_number,
        log@.transaction_index == log.transaction_index,
        log@.log_index == log.log_index,
        match log.block_hash {
            Some(hash) => log@.block_hash == Some(hash@),
            None => log@.block_hash is None,
        },
        match log.transaction_hash {
            Some(hash) => log@.transaction_hash == Some(hash@),
            None => log@.transaction_hash is None,
        },
        filter@.from_block == filter.from_block,
        filter@.to_block == filter.to_block,
        filter@.address.len() == filter.address@.len(),
        0 <= j < filter.address@.len() ==> filter@.address[j] == filter.address@[j]@,
        filter@.topics.len() == 4,
        filter@.topics[n].len() == filter.topics@[n]@.len(),
        0 <= j < filter.topics@[n]@.len() ==> filter@.topics[n][j] == filter.topics@[n]@[j]@,
{
}

/// Whether a given byte string has the width of its type; nothing given is fine.
pub open spec fn has_width(given: Option<Vec<u8>>, width: nat) -> bool {
    given matches Some(bytes) ==> bytes@.len() == width
}

/// Whether the log carries the given topic at a position; nothing given asks
/// nothing.
pub open spec fn carries(log: LogModel, position: int, given: Option<Vec<u8>>) -> bool {
    given matches Some(word) ==> position < log.topics.len() && log.topics[position] == word@
}

/// Whether the log lies in the given block range, at the given address.
pub open spec fn lies_at(log: LogModel, params: Params) -> bool {
    &&& params.block_range matches Some(range) && log.block_number matches Some(block) && range.0
        <= block <= range.1
    &&& params.address matches Some(address) ==> log.address == address@
}

/// The list that a filter has where one byte string may be given.
pub open spec fn listed(given: Option<Vec<u8>>) -> Seq<Seq<u8>> {
    match given {
        Some(word) => seq![word@],
        None => Seq::empty(),
    }
}

/// Parameters describe a log filter exactly where the block range is given and
/// the given words are as wide as their types. The filter has the given range and
/// address, and each given topic at its own position; it admits a log exactly
/// where the log lies there and carries each given topic at its own position.
pub proof fn law_log_filter_asks_for_what_is_given(params: Params, log: LogModel)
    ensures
        log_filter(params) is Ok <==> params.block_range is Some && has_width(params.address, 20)
            && has_width(params.topic0, 32) && has_width(params.topic1, 32) && has_width(
            params.topic2,
            32,
        ) && has_width(params.topic3, 32),
        log_filter(params) matches Ok(filter) ==> {
            &&& params.block_range == Some((filter.from_block, filter.to_block))
            &&& filter.address == listed(params.address)
            &&& filter.topics == seq![
                listed(params.topic0),
                listed(params.topic1),
                listed(params.topic2),
                listed(params.topic3),
            ]
            &&& admits(filter, log) <==> lies_at(log, params) && carries(log, 0, params.topic0)
                && carries(log, 1, params.topic1) && carries(log, 2, params.topic2) && carries(
                log,
                3,
                params.topic3,
            )
        },
{
    lemma_listed(params.address, Some(log.address));
    lemma_listed(params.topic0, topic_at(log, 0));
    lemma_listed(params.topic1, topic_at(log, 1));
    lemma_listed(params.topic2, topic_at(log, 2));
    lemma_listed(params.topic3, topic_at(log, 3));
    if log_filter(params) is Ok {
        let filter = log_filter(params)->Ok_0;
        assert(filter.topics =~= seq![
            listed(params.topic0),
            listed(params.topic1),
            listed(params.topic2),
            listed(params.topic3),
        ]);
    }
}

proof fn lemma_listed(given: Option<Vec<u8>>, value: Option<Seq<u8>>)
    ensures
        given matches Some(word) ==> (list_allows(listed(given), value) <==> value
            == Some(word@)),
{
    if given is Some {
        lemma_one_word(listed(given), given->0@, value);
    }
}

/// The message about a word of the wrong width names the word, its width and how
/// many bytes were given.
pub open spec fn says_width(
    message: Seq<char>,
    name: Seq<char>,
    width: nat,
    given: Vec<u8>,
) -> bool {
    message == name + " must be "@ + decimal(width) + " bytes, got "@ + decimal(given@.len())
}

/// Where the parameters describe no log filter, the message is about the first
/// thing that is wrong: the block range, the address, then the topics in order.
pub proof fn law_log_filter_reports_the_first_fault(params: Params)
    ensures
        params.block_range is None ==> log_filter(params) == Err::<FilterModel, Seq<char>>(
            "block_range not specified"@,
        ),
        params.block_range is Some && !has_width(params.address, 20) ==> (log_filter(
            params,
        ) matches Err(message) && says_width(message, "address"@, 20, params.address->0)),
        params.block_range is Some && has_width(params.address, 20) && !has_width(
            params.topic0,
            32,
        ) ==> (log_filter(params) matches Err(message) && says_width(
            message,
            "topic0"@,
            32,
            params.topic0->0,
        )),
        params.block_range is Some && has_width(params.address, 20) && has_width(
            params.topic0,
            32,
        ) && !has_width(params.topic1, 32) ==> (log_filter(params) matches Err(message)
            && says_width(message, "topic1"@, 32, params.topic1->0)),
        params.block_range is Some && has_width(params.address, 20) && has_width(
            params.topic0,
            32,
        ) && has_width(params.topic1, 32) && !has_width(params.topic2, 32) ==> (log_filter(
            params,
        ) matches Err(message) && says_width(message, "topic2"@, 32, params.topic2->0)),
        params.block_range is Some && has_width(params.address, 20) && has_width(
            params.topic0,
            32,
        ) && has_width(params.topic1, 32) && has_width(params.topic2, 32) && !has_width(
            params.topic3,
            32,
        ) ==> (log_filter(params) matches Err(message) && says_width(
            message,
            "topic3"@,
            32,
            params.topic3->0,
        )),
{
}

/// A topic is compared at its own position and byte by byte: a log without that
/// position, or with another word there, does not fit; nothing wanted always fits.
pub proof fn law_topics_are_compared_in_place(log: LogModel, position: int, word: Seq<u8>)
    requires
        0 <= position,
    ensures
        has_topic(log, position, word) <==> position < log.topics.len() && log.topics[position]
            == word,
        topic_fits(log, position, Some(word)) <==> position < log.topics.len()
            && log.topics[position] == word,
        topic_fits(log, position, None),
{
}

/// The events by their fields: how many topics, how much data, and the first topic.
pub proof fn law_events_have_their_fields(log: LogModel)
    ensures
        erc20_transfer(log) <==> log.topics.len() == 3 && log.data.len() == 32 && log.topics[0]
            == TRANSFER_SIGNATURE_HASH@,
        erc20_approval(log) <==> log.topics.len() == 3 && log.data.len() == 32 && log.topics[0]
            == APPROVAL_SIGNATURE_HASH@,
        erc721_transfer(log) <==> log.topics.len() == 4 && log.data.len() == 0 && log.topics[0]
            == TRANSFER_SIGNATURE_HASH@,
        wrapper_event(log) <==> log.topics.len() == 2 && log.data.len() == 32 && (log.topics[0]
            == DEPOSIT_SIGNATURE_HASH@ || log.topics[0] == WITHDRAWAL_SIGNATURE_HASH@),
        has_shape(log, 2, 32) <==> log.topics.len() == 2 && log.data.len() == 32,
{
}

/// Whether a log is an event of the member, by its fields; raw logs take all.
pub open spec fn is_event(member: Datatype, log: LogModel) -> bool {
    match member {
        Datatype::Logs => true,
        Datatype::Erc20Transfers => log.topics.len() == 3 && log.data.len() == 32
            && log.topics[0] == TRANSFER_SIGNATURE_HASH@,
        Datatype::Erc20Approvals => log.topics.len() == 3 && log.data.len() == 32
            && log.topics[0] == APPROVAL_SIGNATURE_HASH@,
        Datatype::Erc721Transfers => log.topics.len() == 4 && log.data.len() == 0
            && log.topics[0] == TRANSFER_SIGNATURE_HASH@,
        Datatype::Erc20WrapperEvents => log.topics.len() == 2 && log.data.len() == 32 && (
        log.topics[0] == DEPOSIT_SIGNATURE_HASH@ || log.topics[0] == WITHDRAWAL_SIGNATURE_HASH@),
        _ => false,
    }
}

/// Whether a log carries what the parameters ask of the member: raw logs read the
/// given topics, transfers and approvals the given accounts, and wrapper events
/// the second topic.
pub open spec fn is_asked_for(member: Datatype, log: LogModel, params: Params) -> bool {
    match member {
        Datatype::Logs => carries(log, 0, params.topic0) && carries(log, 1, params.topic1)
            && carries(log, 2, params.topic2) && carries(log, 3, params.topic3),
        Datatype::Erc20WrapperEvents => carries(log, 1, params.topic1),
        _ => carries(log, 1, params.from_address) && carries(log, 2, params.to_address),
    }
}

/// A row of a member, by block: an event of it that the parameters ask for. By
/// transaction: any event of it.
pub proof fn law_rows_are_the_events_asked_for(member: Datatype, log: LogModel, params: Params)
    requires
        MultiDatatype::LogEvents.members().contains(member),
    ensures
        is_row(member, log, params) <==> is_event(member, log) && is_asked_for(
            member,
            log,
            params,
        ),
        is_transaction_row(member, log) <==> is_event(member, log),
{
}

/// The wrapper dataset alone asks for both events in the given range, at the
/// given address, of the account that the second topic gives, and for nothing
/// else.
pub proof fn law_wrapper_filter_asks_for_both_events(params: Params)
    ensures
        wrapper_log_filter(params) is Ok <==> log_filter(params) is Ok,
        wrapper_log_filter(params) matches Ok(filter) ==> {
            &&& params.block_range == Some((filter.from_block, filter.to_block))
            &&& filter.address == listed(params.address)
            &&& filter.topics == seq![
                seq![DEPOSIT_SIGNATURE_HASH@, WITHDRAWAL_SIGNATURE_HASH@],
                listed(params.topic1),
                Seq::empty(),
                Seq::empty(),
            ]
        },
        !has_width(params.topic1, 32) ==> (wrapper_log_filter(params) matches Err(message)
            && says_width(message, "topic1"@, 32, params.topic1->0)),
        has_width(params.topic1, 32) && log_filter(params) is Err ==> wrapper_log_filter(params)
            == log_filter(params),
{
    law_log_filter_asks_for_what_is_given(
        params,
        LogModel {
            address: Seq::empty(),
            topics: Seq::empty(),
            data: Seq::empty(),
            block_hash: None,
            block_number: None,
            transaction_hash: None,
            transaction_index: None,
            log_index: None,
        },
    );
    if wrapper_log_filter(params) is Ok {
        let filter = wrapper_log_filter(params)->Ok_0;
        assert(filter.topics =~= seq![
            seq![DEPOSIT_SIGNATURE_HASH@, WITHDRAWAL_SIGNATURE_HASH@],
            listed(params.topic1),
            Seq::empty(),
            Seq::empty(),
        ]);
    }
}

/// Whether the first topic may be that of a log which a requested member wants.
pub open spec fn wants_topic0(active: Set<Datatype>, params: Params, word: Seq<u8>) -> bool {
    ||| active.contains(Datatype::Logs) && params.topic0 is None
    ||| params.topic0 matches Some(given) && word == given@
    ||| active.contains(Datatype::Erc20Transfers) && word == TRANSFER_SIGNATURE_HASH@
    ||| active.contains(Datatype::Erc721Transfers) && word == TRANSFER_SIGNATURE_HASH@
    ||| active.contains(Datatype::Erc20Approvals) && word == APPROVAL_SIGNATURE_HASH@
    ||| active.contains(Datatype::Erc20WrapperEvents) && (word == DEPOSIT_SIGNATURE_HASH@ || word
        == WITHDRAWAL_SIGNATURE_HASH@)
}

/// The shared filter has the given range and address. It narrows only on the
/// first topic, to those that a requested member wants, each listed once, and not
/// at all where raw logs want every log.
pub proof fn law_shared_filter_narrows_on_the_first_topic(
    params: Params,
    active: Set<Datatype>,
    word: Seq<u8>,
)
    ensures
        union_filter(params, active) is Ok <==> log_filter(params) is Ok,
        log_filter(params) is Err ==> union_filter(params, active) == log_filter(params),
        union_filter(params, active) matches Ok(filter) ==> {
            &&& params.block_range == Some((filter.from_block, filter.to_block))
            &&& filter.address == listed(params.address)
            &&& filter.topics.len() == 4
            &&& filter.topics[1].len() == 0
            &&& filter.topics[2].len() == 0
            &&& filter.topics[3].len() == 0
            &&& filter.topics[0].no_duplicates()
            &&& active.contains(Datatype::Logs) && params.topic0 is None
                ==> filter.topics[0].len() == 0
            &&& !(active.contains(Datatype::Logs) && params.topic0 is None)
                ==> (filter.topics[0].contains(word) <==> wants_topic0(active, params, word))
        },
{
    if !(active.contains(Datatype::Logs) && params.topic0 is None) {
        law_union_topic0_is_the_union(
            option_view(params.topic0),
            active,
            word,
        );
    }
    law_log_filter_asks_for_what_is_given(
        params,
        LogModel {
            address: Seq::empty(),
            topics: Seq::empty(),
            data: Seq::empty(),
            block_hash: None,
            block_number: None,
            transaction_hash: None,
            transaction_index: None,
            log_index: None,
        },
    );
}

/// The logs of the chain that a member collects alone: its events in the given
/// range and at the given address that the parameters ask for, in order.
pub open spec fn collected_alone(
    member: Datatype,
    params: Params,
    chain: Seq<LogModel>,
) -> Seq<LogModel> {
    chain.filter(
        |log: LogModel|
            lies_at(log, params) && is_event(member, log) && is_asked_for(member, log, params),
    )
}

/// What a log request returns from a chain.
pub open spec fn request_returns(
    filter: FilterModel,
    chain: Seq<LogModel>,
) -> Seq<LogModel> {
    chain.filter(|log: LogModel| admits(filter, log))
}

/// Transforming a block response adds to each requested member the events of it
/// among the response that the parameters of that response ask for, after the
/// rows that it had, in order; it leaves the other members alone.
pub proof fn law_block_response_is_fanned_out(
    response: (Params, Vec<Log>),
    columns: LogEventsModel,
    query: Query,
)
    ensures
        <LogEvents as Collect<ByBlock>>::transformed(response, columns, query) matches Ok(after)
            && members_grew(
            columns,
            after,
            query.schemas@,
            |member: Datatype| wanted_by_block(member, response),
        ),
{
    lemma_block_transformed(response, columns, query);
    lemma_with_wanted(
        columns,
        query.schemas@,
        |member: Datatype| wanted_by_block(member, response),
    );
}

/// Transforming the logs of a transaction adds to each requested member its
/// events among them, after the rows that it had, in order; it leaves the other
/// members alone.
pub proof fn law_transaction_response_is_fanned_out(
    response: Vec<Log>,
    columns: LogEventsModel,
    query: Query,
)
    ensures
        <LogEvents as Collect<ByTransaction>>::transformed(response, columns, query) matches Ok(
            after,
        ) && members_grew(
            columns,
            after,
            query.schemas@,
            |member: Datatype| wanted_by_transaction(member, response),
        ),
{
    lemma_transaction_transformed(response, columns, query);
    lemma_with_wanted(
        columns,
        query.schemas@,
        |member: Datatype| wanted_by_transaction(member, response),
    );
}

/// Whether each requested member has its old rows followed by the wanted ones,
/// and each other member its old rows. The wrapper events have the rows that
/// transforming the wanted logs alone gives them.
pub open spec fn members_grew(
    before: LogEventsModel,
    after: LogEventsModel,
    schemas: Map<Datatype, Table>,
    wanted: spec_fn(Datatype) -> Seq<LogModel>,
) -> bool {
    &&& after.logs == (if schemas.contains_key(Datatype::Logs) {
        before.logs + wanted(Datatype::Logs)
    } else {
        before.logs
    })
    &&& after.erc20_transfers == (if schemas.contains_key(Datatype::Erc20Transfers) {
        before.erc20_transfers + wanted(Datatype::Erc20Transfers)
    } else {
        before.erc20_transfers
    })
    &&& after.erc20_approvals == (if schemas.contains_key(Datatype::Erc20Approvals) {
        before.erc20_approvals + wanted(Datatype::Erc20Approvals)
    } else {
        before.erc20_approvals
    })
    &&& after.erc721_transfers == (if schemas.contains_key(Datatype::Erc721Transfers) {
        before.erc721_transfers + wanted(Datatype::Erc721Transfers)
    } else {
        before.erc721_transfers
    })
    &&& if schemas.contains_key(Datatype::Erc20WrapperEvents) {
        gained_events(
            before.erc20_wrapper_events,
            after.erc20_wrapper_events,
            wanted(Datatype::Erc20WrapperEvents),
            schemas[Datatype::Erc20WrapperEvents]@,
        )
    } else {
        after.erc20_wrapper_events == before.erc20_wrapper_events
    }
}

proof fn lemma_members()
    ensures
        MultiDatatype::LogEvents.members().contains(Datatype::Logs),
        MultiDatatype::LogEvents.members().contains(Datatype::Erc20Transfers),
        MultiDatatype::LogEvents.members().contains(Datatype::Erc20Approvals),
        MultiDatatype::LogEvents.members().contains(Datatype::Erc721Transfers),
        MultiDatatype::LogEvents.members().contains(Datatype::Erc20WrapperEvents),
{
    let members = MultiDatatype::LogEvents.members();
    assert(members[0] == Datatype::Logs && members[1] == Datatype::Erc20Transfers && members[2]
        == Datatype::Erc20Approvals && members[3] == Datatype::Erc721Transfers && members[4]
        == Datatype::Erc20WrapperEvents);
}

/// The accumulators with the wanted logs of each requested member added.
spec fn with_wanted(
    columns: LogEventsModel,
    schemas: Map<Datatype, Table>,
    wanted: spec_fn(Datatype) -> Seq<LogModel>,
) -> LogEventsModel {
    LogEventsModel {
        logs: with_rows(
            columns.logs,
            schemas.contains_key(Datatype::Logs),
            wanted(Datatype::Logs),
        ),
        erc20_transfers: with_rows(
            columns.erc20_transfers,
            schemas.contains_key(Datatype::Erc20Transfers),
            wanted(Datatype::Erc20Transfers),
        ),
        erc20_approvals: with_rows(
            columns.erc20_approvals,
            schemas.contains_key(Datatype::Erc20Approvals),
            wanted(Datatype::Erc20Approvals),
        ),
        erc721_transfers: with_rows(
            columns.erc721_transfers,
            schemas.contains_key(Datatype::Erc721Transfers),
            wanted(Datatype::Erc721Transfers),
        ),
        erc20_wrapper_events: if schemas.contains_key(Datatype::Erc20WrapperEvents) {
            with_wrapper_rows(
                columns.erc20_wrapper_events,
                wanted(Datatype::Erc20WrapperEvents),
                schemas[Datatype::Erc20WrapperEvents]@,
            )
        } else {
            columns.erc20_wrapper_events
        },
    }
}

proof fn lemma_with_wanted(
    columns: LogEventsModel,
    schemas: Map<Datatype, Table>,
    wanted: spec_fn(Datatype) -> Seq<LogModel>,
)
    ensures
        members_grew(columns, with_wanted(columns, schemas, wanted), schemas, wanted),
{
    law_processing_adds_the_events(
        columns.erc20_wrapper_events,
        wanted(Datatype::Erc20WrapperEvents),
        schemas[Datatype::Erc20WrapperEvents]@,
    );
}

/// The logs of a block response that a member wants.
pub open spec fn wanted_by_block(member: Datatype, response: (Params, Vec<Log>)) -> Seq<LogModel> {
    views(response.1@).filter(
        |log: LogModel| is_event(member, log) && is_asked_for(member, log, response.0),
    )
}

/// The logs of a transaction that a member wants.
pub open spec fn wanted_by_transaction(member: Datatype, response: Vec<Log>) -> Seq<LogModel> {
    views(response@).filter(|log: LogModel| is_event(member, log))
}

proof fn lemma_block_transformed(
    response: (Params, Vec<Log>),
    columns: LogEventsModel,
    query: Query,
)
    ensures
        <LogEvents as Collect<ByBlock>>::transformed(response, columns, query) == Ok::<
            LogEventsModel,
            Seq<char>,
        >(
            with_wanted(
                columns,
                query.schemas@,
                |member: Datatype| wanted_by_block(member, response),
            ),
        ),
{
    lemma_members();
    lemma_wanted_by_block(Datatype::Logs, response);
    lemma_wanted_by_block(Datatype::Erc20Transfers, response);
    lemma_wanted_by_block(Datatype::Erc20Approvals, response);
    lemma_wanted_by_block(Datatype::Erc721Transfers, response);
    lemma_wanted_by_block(Datatype::Erc20WrapperEvents, response);
    let row = |member: Datatype, log: LogModel| is_row(member, log, response.0);
    let wanted = |member: Datatype| wanted_by_block(member, response);
    assert(fanned_out(columns, views(response.1@), row, query) =~= with_wanted(
        columns,
        query.schemas@,
        wanted,
    ));
}

proof fn lemma_wanted_by_block(member: Datatype, response: (Params, Vec<Log>))
    requires
        MultiDatatype::LogEvents.members().contains(member),
    ensures
        ({
            let row = |member: Datatype, log: LogModel| is_row(member, log, response.0);
            views(response.1@).filter(|log: LogModel| row(member, log)) == wanted_by_block(
                member,
                response,
            )
        }),
{
    let row = |member: Datatype, log: LogModel| is_row(member, log, response.0);
    let kept = |log: LogModel| row(member, log);
    assert forall|log: LogModel| #[trigger]
        kept(log) == (is_event(member, log) && is_asked_for(member, log, response.0)) by {
        law_rows_are_the_events_asked_for(member, log, response.0);
    }
    lemma_filter_same(
        views(response.1@),
        kept,
        |log: LogModel| is_event(member, log) && is_asked_for(member, log, response.0),
    );
}

proof fn lemma_transaction_transformed(response: Vec<Log>, columns: LogEventsModel, query: Query)
    ensures
        <LogEvents as Collect<ByTransaction>>::transformed(response, columns, query) == Ok::<
            LogEventsModel,
            Seq<char>,
        >(
            with_wanted(
                columns,
                query.schemas@,
                |member: Datatype| wanted_by_transaction(member, response),
            ),
        ),
{
    lemma_members();
    lemma_wanted_by_transaction(Datatype::Logs, response);
    lemma_wanted_by_transaction(Datatype::Erc20Transfers, response);
    lemma_wanted_by_transaction(Datatype::Erc20Approvals, response);
    lemma_wanted_by_transaction(Datatype::Erc721Transfers, response);
    lemma_wanted_by_transaction(Datatype::Erc20WrapperEvents, response);
    let row = |member: Datatype, log: LogModel| is_transaction_row(member, log);
    let wanted = |member: Datatype| wanted_by_transaction(member, response);
    assert(fanned_out(columns, views(response@), row, query) =~= with_wanted(
        columns,
        query.schemas@,
        wanted,
    ));
}

proof fn lemma_wanted_by_transaction(member: Datatype, response: Vec<Log>)
    requires
        MultiDatatype::LogEvents.members().contains(member),
    ensures
        ({
            let row = |member: Datatype, log: LogModel| is_transaction_row(member, log);
            views(response@).filter(|log: LogModel| row(member, log)) == wanted_by_transaction(
                member,
                response,
            )
        }),
{
    let row = |member: Datatype, log: LogModel| is_transaction_row(member, log);
    lemma_filter_same(
        views(response@),
        |log: LogModel| row(member, log),
        |log: LogModel| is_event(member, log),
    );
}

/// Members collected together collect what they collect alone: where the response
/// to the shared request of the query is transformed, each requested member gains
/// exactly the logs of the chain that it collects alone for the same parameters.
pub proof fn law_coalescing_changes_no_rows(
    response: (Params, Vec<Log>),
    columns: LogEventsModel,
    query: Query,
    chain: Seq<LogModel>,
)
    requires
        response.0.block_range is Some,
        has_width(response.0.address, 20),
        has_width(response.0.topic0, 32),
        has_width(response.0.topic1, 32),
        has_width(response.0.topic2, 32),
        has_width(response.0.topic3, 32),
        views(response.1@) == request_returns(
            union_filter(response.0, query.schemas@.dom())->Ok_0,
            chain,
        ),
    ensures
        union_filter(response.0, query.schemas@.dom()) is Ok,
        <LogEvents as Collect<ByBlock>>::transformed(response, columns, query) matches Ok(after)
            && members_grew(
            columns,
            after,
            query.schemas@,
            |member: Datatype| collected_alone(member, response.0, chain),
        ),
{
    let params = response.0;
    let active = query.schemas@.dom();
    let by_block = |member: Datatype| wanted_by_block(member, response);
    let alone = |member: Datatype| collected_alone(member, params, chain);
    law_shared_filter_narrows_on_the_first_topic(params, active, Seq::empty());
    assert(union_filter(params, active) is Ok) by {
        law_log_filter_asks_for_what_is_given(params, chain[0]);
    }
    lemma_block_transformed(response, columns, query);
    lemma_with_wanted(columns, query.schemas@, by_block);
    lemma_members();
    assert forall|member: Datatype|
        MultiDatatype::LogEvents.members().contains(member) && #[trigger] active.contains(
            member,
        ) implies by_block(member) == alone(member) by {
        lemma_collected_alone(member, response, query, chain);
    }
    assert(active.contains(Datatype::Logs) ==> by_block(Datatype::Logs) == alone(Datatype::Logs));
    assert(active.contains(Datatype::Erc20Transfers) ==> by_block(Datatype::Erc20Transfers)
        == alone(Datatype::Erc20Transfers));
    assert(active.contains(Datatype::Erc20Approvals) ==> by_block(Datatype::Erc20Approvals)
        == alone(Datatype::Erc20Approvals));
    assert(active.contains(Datatype::Erc721Transfers) ==> by_block(Datatype::Erc721Transfers)
        == alone(Datatype::Erc721Transfers));
    assert(active.contains(Datatype::Erc20WrapperEvents) ==> by_block(Datatype::Erc20WrapperEvents)
        == alone(Datatype::Erc20WrapperEvents));
}

proof fn lemma_collected_alone(
    member: Datatype,
    response: (Params, Vec<Log>),
    query: Query,
    chain: Seq<LogModel>,
)
    requires
        MultiDatatype::LogEvents.members().contains(member),
        query.schemas@.contains_key(member),
        union_filter(response.0, query.schemas@.dom()) is Ok,
        views(response.1@) == request_returns(
            union_filter(response.0, query.schemas@.dom())->Ok_0,
            chain,
        ),
    ensures
        wanted_by_block(member, response) == collected_alone(member, response.0, chain),
{
    let params = response.0;
    let active = query.schemas@.dom();
    let shared = union_filter(params, active)->Ok_0;
    let both = |log: LogModel|
        lies_at(log, params) && is_event(member, log) && is_asked_for(member, log, params);
    assert forall|log: LogModel| #[trigger]
        both(log) == (admits(shared, log) && (is_event(member, log) && is_asked_for(
            member,
            log,
            params,
        ))) by {
        lemma_listed(params.address, Some(log.address));
        law_shared_filter_narrows_on_the_first_topic(params, active, log.topics[0]);
        if shared.topics[0].len() == 0 && !(active.contains(Datatype::Logs) && params.topic0
            is None) {
            law_shared_filter_narrows_on_the_first_topic(
                params,
                active,
                TRANSFER_SIGNATURE_HASH@,
            );
        }
    }
    lemma_filter_twice(
        chain,
        |log: LogModel| admits(shared, log),
        |log: LogModel| is_event(member, log) && is_asked_for(member, log, params),
        both,
    );
}

/// What a member collects alone is what its own request returns, less the logs
/// without its shape.
pub proof fn law_alone_is_by_the_own_request(
    member: Datatype,
    params: Params,
    chain: Seq<LogModel>,
)
    requires
        MultiDatatype::LogEvents.members().contains(member),
        own_filter(member, params) is Some,
    ensures
        request_returns(own_filter(member, params)->0, chain).filter(
            |log: LogModel| own_shape(member, log),
        ) == collected_alone(member, params, chain),
{
    let own = own_filter(member, params)->0;
    let both = |log: LogModel|
        lies_at(log, params) && is_event(member, log) && is_asked_for(member, log, params);
    assert forall|log: LogModel| #[trigger]
        both(log) == (admits(own, log) && own_shape(member, log)) by {
        law_log_filter_asks_for_what_is_given(params, log);
        lemma_listed(params.address, Some(log.address));
        lemma_listed(params.topic1, topic_at(log, 1));
        lemma_listed(params.from_address, topic_at(log, 1));
        lemma_listed(params.to_address, topic_at(log, 2));
        lemma_one_word(seq![TRANSFER_SIGNATURE_HASH@], TRANSFER_SIGNATURE_HASH@, topic_at(log, 0));
        lemma_one_word(seq![APPROVAL_SIGNATURE_HASH@], APPROVAL_SIGNATURE_HASH@, topic_at(log, 0));
        let events = seq![DEPOSIT_SIGNATURE_HASH@, WITHDRAWAL_SIGNATURE_HASH@];
        assert(events[0] == DEPOSIT_SIGNATURE_HASH@ && events[1] == WITHDRAWAL_SIGNATURE_HASH@);
    }
    lemma_filter_twice(
        chain,
        |log: LogModel| admits(own, log),
        |log: LogModel| own_shape(member, log),
        both,
    );
}

/// What a member wants of all block responses, one after the other.
pub open spec fn wanted_of_blocks(
    member: Datatype,
    messages: Seq<R<(Params, Vec<Log>)>>,
) -> Seq<LogModel>
    decreases messages.len(),
{
    if messages.len() == 0 {
        Seq::empty()
    } else {
        wanted_of_blocks(member, messages.drop_last()) + wanted_by_block(
            member,
            messages.last()->Ok_0,
        )
    }
}

/// What a member wants of all transactions, one after the other.
pub open spec fn wanted_of_transactions(
    member: Datatype,
    messages: Seq<R<Vec<Log>>>,
) -> Seq<LogModel>
    decreases messages.len(),
{
    if messages.len() == 0 {
        Seq::empty()
    } else {
        wanted_of_transactions(member, messages.drop_last()) + wanted_by_transaction(
            member,
            messages.last()->Ok_0,
        )
    }
}

/// Whether the accumulators hold nothing.
pub open spec fn holds_nothing(columns: LogEventsModel) -> bool {
    &&& columns.logs.len() == 0
    &&& columns.erc20_transfers.len() == 0
    &&& columns.erc20_approvals.len() == 0
    &&& columns.erc721_transfers.len() == 0
    &&& holds_no_events(columns.erc20_wrapper_events)
}

proof fn lemma_with_wanted_twice(
    schemas: Map<Datatype, Table>,
    first: spec_fn(Datatype) -> Seq<LogModel>,
    second: spec_fn(Datatype) -> Seq<LogModel>,
    both: spec_fn(Datatype) -> Seq<LogModel>,
)
    requires
        forall|member: Datatype| #[trigger] both(member) == first(member) + second(member),
    ensures
        with_wanted(with_wanted(no_log_rows(), schemas, first), schemas, second) == with_wanted(
            no_log_rows(),
            schemas,
            both,
        ),
{
    law_wrapper_rows_accumulate(
        no_log_rows().erc20_wrapper_events,
        first(Datatype::Erc20WrapperEvents),
        second(Datatype::Erc20WrapperEvents),
        schemas[Datatype::Erc20WrapperEvents]@,
    );
    assert(with_wanted(with_wanted(no_log_rows(), schemas, first), schemas, second)
        =~= with_wanted(no_log_rows(), schemas, both));
}

proof fn lemma_with_nothing_wanted(
    schemas: Map<Datatype, Table>,
    nothing: spec_fn(Datatype) -> Seq<LogModel>,
)
    requires
        forall|member: Datatype| #[trigger] nothing(member) == Seq::<LogModel>::empty(),
    ensures
        with_wanted(no_log_rows(), schemas, nothing) == no_log_rows(),
{
    reveal(Seq::filter);
    let schema = schemas[Datatype::Erc20WrapperEvents]@;
    assert(with_wrapper_rows(no_log_rows().erc20_wrapper_events, Seq::empty(), schema)
        =~= no_log_rows().erc20_wrapper_events);
    assert(with_wanted(no_log_rows(), schemas, nothing) =~= no_log_rows());
}

/// Collecting several block responses keeps the rows of all of them: each
/// requested member has what it wants of every response, by the parameters of
/// that response, in order, and the others have nothing.
pub proof fn law_collecting_keeps_the_rows_of_all_blocks(
    messages: Seq<R<(Params, Vec<Log>)>>,
    query: Query,
)
    requires
        forall|i: int| 0 <= i < messages.len() ==> (#[trigger] messages[i]) is Ok,
    ensures
        all_transformed::<LogEvents, ByBlock>(messages, query) matches Ok(after) && exists|
            empty: LogEventsModel,
        |
            #![trigger holds_nothing(empty)]
            holds_nothing(empty) && members_grew(
                empty,
                after,
                query.schemas@,
                |member: Datatype| wanted_of_blocks(member, messages),
            ),
{
    lemma_blocks_collected(messages, query);
    lemma_with_wanted(
        no_log_rows(),
        query.schemas@,
        |member: Datatype| wanted_of_blocks(member, messages),
    );
    assert(holds_nothing(no_log_rows()));
}

proof fn lemma_blocks_collected(messages: Seq<R<(Params, Vec<Log>)>>, query: Query)
    requires
        forall|i: int| 0 <= i < messages.len() ==> (#[trigger] messages[i]) is Ok,
    ensures
        all_transformed::<LogEvents, ByBlock>(messages, query) == Ok::<LogEventsModel, Seq<char>>(
            with_wanted(
                no_log_rows(),
                query.schemas@,
                |member: Datatype| wanted_of_blocks(member, messages),
            ),
        ),
    decreases messages.len(),
{
    let all = |member: Datatype| wanted_of_blocks(member, messages);
    if messages.len() == 0 {
        lemma_with_nothing_wanted(query.schemas@, all);
    } else {
        let earlier = messages.drop_last();
        assert forall|i: int| 0 <= i < earlier.len() implies (#[trigger] earlier[i]) is Ok by {
            assert(earlier[i] == messages[i]);
        }
        assert(messages[messages.len() - 1] is Ok);
        lemma_blocks_collected(earlier, query);
        let first = |member: Datatype| wanted_of_blocks(member, earlier);
        let last = messages.last()->Ok_0;
        let second = |member: Datatype| wanted_by_block(member, last);
        lemma_block_transformed(last, with_wanted(no_log_rows(), query.schemas@, first), query);
        lemma_with_wanted_twice(query.schemas@, first, second, all);
    }
}

/// Collecting several transactions keeps the rows of all of them: each requested
/// member has its events of every transaction, in order, and the others have
/// nothing.
pub proof fn law_collecting_keeps_the_rows_of_all_transactions(
    messages: Seq<R<Vec<Log>>>,
    query: Query,
)
    requires
        forall|i: int| 0 <= i < messages.len() ==> (#[trigger] messages[i]) is Ok,
    ensures
        all_transformed::<LogEvents, ByTransaction>(messages, query) matches Ok(after) && exists|
            empty: LogEventsModel,
        |
            #![trigger holds_nothing(empty)]
            holds_nothing(empty) && members_grew(
                empty,
                after,
                query.schemas@,
                |member: Datatype| wanted_of_transactions(member, messages),
            ),
{
    lemma_transactions_collected(messages, query);
    lemma_with_wanted(
        no_log_rows(),
        query.schemas@,
        |member: Datatype| wanted_of_transactions(member, messages),
    );
    assert(holds_nothing(no_log_rows()));
}

proof fn lemma_transactions_collected(messages: Seq<R<Vec<Log>>>, query: Query)
    requires
        forall|i: int| 0 <= i < messages.len() ==> (#[trigger] messages[i]) is Ok,
    ensures
        all_transformed::<LogEvents, ByTransaction>(messages, query) == Ok::<
            LogEventsModel,
            Seq<char>,
        >(
            with_wanted(
                no_log_rows(),
                query.schemas@,
                |member: Datatype| wanted_of_transactions(member, messages),
            ),
        ),
    decreases messages.len(),
{
    let all = |member: Datatype| wanted_of_transactions(member, messages);
    if messages.len() == 0 {
        lemma_with_nothing_wanted(query.schemas@, all);
    } else {
        let earlier = messages.drop_last();
        assert forall|i: int| 0 <= i < earlier.len() implies (#[trigger] earlier[i]) is Ok by {
            assert(earlier[i] == messages[i]);
        }
        assert(messages[messages.len() - 1] is Ok);
        lemma_transactions_collected(earlier, query);
        let first = |member: Datatype| wanted_of_transactions(member, earlier);
        let last = messages.last()->Ok_0;
        let second = |member: Datatype| wanted_by_transaction(member, last);
        lemma_transaction_transformed(
            last,
            with_wanted(no_log_rows(), query.schemas@, first),
            query,
        );
        lemma_with_wanted_twice(query.schemas@, first, second, all);
    }
}

/// The model of the accumulators holds each of them.
pub proof fn law_log_events_model_holds_the_rows(columns: LogEvents, i: int)
    ensures
        columns@.logs.len() == columns.logs@.len(),
        0 <= i < columns.logs@.len() ==> columns@.logs[i] == columns.logs@[i]@,
        columns@.erc20_transfers.len() == columns.erc20_transfers@.len(),
        0 <= i < columns.erc20_transfers@.len() ==> columns@.erc20_transfers[i]
            == columns.erc20_transfers@[i]@,
        columns@.erc20_approvals.len() == columns.erc20_approvals@.len(),
        0 <= i < columns.erc20_approvals@.len() ==> columns@.erc20_approvals[i]
            == columns.erc20_approvals@[i]@,
        columns@.erc721_transfers.len() == columns.erc721_transfers@.len(),
        0 <= i < columns.erc721_transfers@.len() ==> columns@.erc721_transfers[i]
            == columns.erc721_transfers@[i]@,
        columns@.erc20_wrapper_events == columns.erc20_wrapper_events@,
{
}

/// The members that become dataframes are the requested ones, each with the rows
/// of its own accumulator, once.
pub proof fn law_requested_members_come_out(
    columns: LogEventsModel,
    schemas: Map<Datatype, Table>,
    rows: Seq<LogModel>,
    events: WrapperColumns,
)
    ensures
        ({
            let members = requested_members(columns, schemas);
            &&& members.no_duplicates()
            &&& members.contains(MemberModel::Logs(rows)) <==> schemas.contains_key(Datatype::Logs)
                && rows == columns.logs
            &&& members.contains(MemberModel::Erc20Transfers(rows)) <==> schemas.contains_key(
                Datatype::Erc20Transfers,
            ) && rows == columns.erc20_transfers
            &&& members.contains(MemberModel::Erc20Approvals(rows)) <==> schemas.contains_key(
                Datatype::Erc20Approvals,
            ) && rows == columns.erc20_approvals
            &&& members.contains(MemberModel::Erc721Transfers(rows)) <==> schemas.contains_key(
                Datatype::Erc721Transfers,
            ) && rows == columns.erc721_transfers
            &&& members.contains(MemberModel::Erc20WrapperEvents(events))
                <==> schemas.contains_key(Datatype::Erc20WrapperEvents) && events
                == columns.erc20_wrapper_events
        }),
{
    let a = if_requested(schemas, Datatype::Logs, MemberModel::Logs(columns.logs));
    let b = if_requested(
        schemas,
        Datatype::Erc20Transfers,
        MemberModel::Erc20Transfers(columns.erc20_transfers),
    );
    let c = if_requested(
        schemas,
        Datatype::Erc20Approvals,
        MemberModel::Erc20Approvals(columns.erc20_approvals),
    );
    let d = if_requested(
        schemas,
        Datatype::Erc721Transfers,
        MemberModel::Erc721Transfers(columns.erc721_transfers),
    );
    let e = if_requested(
        schemas,
        Datatype::Erc20WrapperEvents,
        MemberModel::Erc20WrapperEvents(columns.erc20_wrapper_events),
    );
    let members = requested_members(columns, schemas);
    assert(members == a + b + c + d + e);
    if schemas.contains_key(Datatype::Logs) {
        assert(members[0] == a[0]);
    }
    if schemas.contains_key(Datatype::Erc20Transfers) {
        assert(members[a.len() as int] == b[0]);
    }
    if schemas.contains_key(Datatype::Erc20Approvals) {
        assert(members[(a + b).len() as int] == c[0]);
    }
    if schemas.contains_key(Datatype::Erc721Transfers) {
        assert(members[(a + b + c).len() as int] == d[0]);
    }
    if schemas.contains_key(Datatype::Erc20WrapperEvents) {
        assert(members[(a + b + c + d).len() as int] == e[0]);
    }
}

} // verus!
