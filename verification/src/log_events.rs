//! Coalesced log-events multi-dataset.
//!
//! When two or more of `logs`, `erc20_transfers`, `erc20_approvals`,
//! `erc721_transfers` and `erc20_wrapper_events` are requested together, one log
//! request per partition serves them all, and its response is fanned out to each
//! requested member.
//!
//! The shared filter admits every log that a member's own filter admits. It
//! narrows only on what the members agree on: the block range, the address, and
//! the union of their first topics. The other topics mean different things to
//! different members, so each member applies its own full filter to the shared
//! response, and receives exactly the rows that it would have collected alone.

use vstd::prelude::*;

use crate::bytes::{contains_word, lemma_views_push, option_view, views, B256};
use crate::collection::{ByBlock, ByTransaction, Collect, CollectByTransaction};
use crate::datatypes::{
    all_datatypes, law_every_datatype_is_listed_once, Datatype, MultiDatatype,
};
use crate::erc20_wrapper_events::{
    gives_row, no_wrapper_rows, process_wrapper_events, rows_have_parts, with_wrapper_rows,
    wrapper_log_filter, Erc20WrapperEvents, WrapperColumns,
};
use crate::error::{result_view, R};
use crate::filter::{admits, list_allows, topic_at, Filter, FilterModel};
use crate::log::{
    erc20_approval, erc20_transfer, erc721_transfer, has_shape, has_topic, is_erc20_approval,
    is_erc20_transfer, is_erc721_transfer, is_wrapper_event, select_logs, wrapper_event, Log,
    LogModel,
};
use crate::rpc_params::{fixed_from_slice, log_filter, Params};
use crate::schema::{Query, Schemas, Table};
use crate::seqs::{
    lemma_filter_contains, lemma_filter_twice, lemma_kept_len, lemma_push_contains,
};
use crate::signatures::{
    APPROVAL_SIGNATURE_HASH, DEPOSIT_SIGNATURE_HASH, TRANSFER_SIGNATURE_HASH,
    WITHDRAWAL_SIGNATURE_HASH,
};

verus! {

/// Coalesced log-events multi-dataset.
///
/// Holds one accumulator per member. Accumulators of members that were not
/// requested stay empty.
#[derive(Debug)]
pub struct LogEvents {
    /// rows of raw logs
    pub logs: Vec<Log>,
    /// rows of erc20 transfers
    pub erc20_transfers: Vec<Log>,
    /// rows of erc20 approvals
    pub erc20_approvals: Vec<Log>,
    /// rows of erc721 transfers
    pub erc721_transfers: Vec<Log>,
    /// columns of erc20 wrapper events
    pub erc20_wrapper_events: Erc20WrapperEvents,
}

/// The model of the accumulators.
#[verifier::ext_equal]
pub struct LogEventsModel {
    pub logs: Seq<LogModel>,
    pub erc20_transfers: Seq<LogModel>,
    pub erc20_approvals: Seq<LogModel>,
    pub erc721_transfers: Seq<LogModel>,
    pub erc20_wrapper_events: WrapperColumns,
}

impl View for LogEvents {
    type V = LogEventsModel;

    open spec fn view(&self) -> LogEventsModel {
        LogEventsModel {
            logs: views(self.logs@),
            erc20_transfers: views(self.erc20_transfers@),
            erc20_approvals: views(self.erc20_approvals@),
            erc721_transfers: views(self.erc721_transfers@),
            erc20_wrapper_events: self.erc20_wrapper_events@,
        }
    }
}

/// The words with one more, if it is wanted and not yet among them.
pub open spec fn with_word(words: Seq<Seq<u8>>, wanted: bool, word: Seq<u8>) -> Seq<Seq<u8>> {
    if wanted && !words.contains(word) {
        words.push(word)
    } else {
        words
    }
}

/// The first topics that the shared filter allows.
///
/// Raw logs without a given first topic want every log, so the list is empty.
/// Otherwise it holds the given first topic and the signature hashes of the
/// requested members.
pub open spec fn union_topic0(topic0: Option<Seq<u8>>, active: Set<Datatype>) -> Seq<Seq<u8>> {
    if active.contains(Datatype::Logs) && topic0 is None {
        Seq::empty()
    } else {
        let given = match topic0 {
            Some(word) => seq![word],
            None => Seq::empty(),
        };
        let transfers = with_word(
            given,
            active.contains(Datatype::Erc20Transfers) || active.contains(Datatype::Erc721Transfers),
            TRANSFER_SIGNATURE_HASH@,
        );
        let approvals = with_word(
            transfers,
            active.contains(Datatype::Erc20Approvals),
            APPROVAL_SIGNATURE_HASH@,
        );
        let wrapper = active.contains(Datatype::Erc20WrapperEvents);
        let deposits = with_word(approvals, wrapper, DEPOSIT_SIGNATURE_HASH@);
        with_word(deposits, wrapper, WITHDRAWAL_SIGNATURE_HASH@)
    }
}

/// The shared filter of the requested members.
pub open spec fn union_filter(params: Params, active: Set<Datatype>) -> Result<
    FilterModel,
    Seq<char>,
> {
    match log_filter(params) {
        Err(message) => Err(message),
        Ok(base) => Ok(
            FilterModel {
                topics: seq![
                    union_topic0(option_view(params.topic0), active),
                    Seq::empty(),
                    Seq::empty(),
                    Seq::empty(),
                ],
                ..base
            },
        ),
    }
}

fn contains_datatype(datatypes: &Vec<Datatype>, datatype: Datatype) -> (found: bool)
    ensures
        found == datatypes@.to_set().contains(datatype),
{
    let mut i: usize = 0;
    while i < datatypes.len()
        invariant
            i <= datatypes@.len(),
            forall|j: int| 0 <= j < i ==> datatypes@[j] != datatype,
        decreases datatypes@.len() - i,
    {
        if datatypes[i] == datatype {
            assert(datatypes@.contains(datatype));
            return true;
        }
        i += 1;
    }
    assert(!datatypes@.contains(datatype));
    false
}

fn push_word(words: &mut Vec<B256>, wanted: bool, word: B256)
    ensures
        views(final(words)@) == with_word(views(old(words)@), wanted, word@),
{
    broadcast use lemma_views_push;

    if wanted && !contains_word(words, &word) {
        words.push(word);
    }
}

/// Build the UNION filter for one partition chunk.
///
/// `active` lists the requested datatypes.
pub fn build_union_filter(request: &Params, active: &Vec<Datatype>) -> (filter: R<Filter>)
    ensures
        result_view(filter) == union_filter(*request, active@.to_set()),
{
    let want_logs = contains_datatype(active, Datatype::Logs);
    let want_erc20_transfers = contains_datatype(active, Datatype::Erc20Transfers);
    let want_erc20_approvals = contains_datatype(active, Datatype::Erc20Approvals);
    let want_erc721_transfers = contains_datatype(active, Datatype::Erc721Transfers);
    let want_erc20_wrapper_events = contains_datatype(active, Datatype::Erc20WrapperEvents);

    // `base` supplies the shared block range and address; its topics are
    // replaced, since the members disagree on what the later ones mean.
    let base = request.ethers_log_filter()?;

    let mut topic0s: Vec<B256> = Vec::new();
    assert(views(topic0s@) =~= Seq::empty());
    assert(views(Seq::<B256>::empty()) =~= Seq::empty());

    // Raw logs without a given first topic want every first topic in the range.
    if !(want_logs && request.topic0.is_none()) {
        if let Some(user_topic0) = &request.topic0 {
            let word = fixed_from_slice::<32>(user_topic0.as_slice(), "topic0")?;
            topic0s.push(word);
            assert(views(topic0s@) =~= seq![word@]);
        }
        push_word(
            &mut topic0s,
            want_erc20_transfers || want_erc721_transfers,
            TRANSFER_SIGNATURE_HASH,
        );
        push_word(&mut topic0s, want_erc20_approvals, APPROVAL_SIGNATURE_HASH);
        push_word(&mut topic0s, want_erc20_wrapper_events, DEPOSIT_SIGNATURE_HASH);
        push_word(&mut topic0s, want_erc20_wrapper_events, WITHDRAWAL_SIGNATURE_HASH);
    }
    Ok(
        Filter {
            from_block: base.from_block,
            to_block: base.to_block,
            address: base.address,
            topics: [topic0s, Vec::new(), Vec::new(), Vec::new()],
        },
    )
}

/// Whether the log has the wanted topic at a position; nothing wanted means no
/// constraint. Bytes of another width than a topic are had by no log.
pub open spec fn topic_fits(log: LogModel, position: int, want: Option<Seq<u8>>) -> bool {
    match want {
        None => true,
        Some(word) => has_topic(log, position, word),
    }
}

/// A row of raw logs: the given topics at their positions.
pub open spec fn logs_match(log: LogModel, params: Params) -> bool {
    &&& topic_fits(log, 0, option_view(params.topic0))
    &&& topic_fits(log, 1, option_view(params.topic1))
    &&& topic_fits(log, 2, option_view(params.topic2))
    &&& topic_fits(log, 3, option_view(params.topic3))
}

/// The given sender and receiver at the positions of the indexed accounts.
pub open spec fn accounts_match(log: LogModel, params: Params) -> bool {
    &&& topic_fits(log, 1, option_view(params.from_address))
    &&& topic_fits(log, 2, option_view(params.to_address))
}

/// A row of `member`, when it is collected by block.
pub open spec fn is_row(member: Datatype, log: LogModel, params: Params) -> bool {
    match member {
        Datatype::Logs => logs_match(log, params),
        Datatype::Erc20Transfers => erc20_transfer(log) && accounts_match(log, params),
        Datatype::Erc20Approvals => erc20_approval(log) && accounts_match(log, params),
        Datatype::Erc721Transfers => erc721_transfer(log) && accounts_match(log, params),
        Datatype::Erc20WrapperEvents => wrapper_event(log) && topic_fits(
            log,
            1,
            option_view(params.topic1),
        ),
        _ => false,
    }
}

/// A row of `member`, when it is collected by transaction.
pub open spec fn is_transaction_row(member: Datatype, log: LogModel) -> bool {
    match member {
        Datatype::Logs => true,
        Datatype::Erc20Transfers => erc20_transfer(log),
        Datatype::Erc20Approvals => erc20_approval(log),
        Datatype::Erc721Transfers => erc721_transfer(log),
        Datatype::Erc20WrapperEvents => wrapper_event(log),
        _ => false,
    }
}

/// True iff `log`'s topic at `idx` equals `want` (`None` means unconstrained).
///
/// Compares raw bytes: a malformed topic simply matches nothing.
pub fn topic_matches(log: &Log, idx: usize, want: &Option<Vec<u8>>) -> (fits: bool)
    ensures
        fits == topic_fits(log@, idx as int, option_view(*want)),
{
    match want {
        None => true,
        Some(word) => log.topic_is(idx, word.as_slice()),
    }
}

/// Raw `logs` by-block filter: the given topics at their positions.
pub fn matches_logs(log: &Log, params: &Params) -> (row: bool)
    ensures
        row == is_row(Datatype::Logs, log@, *params),
{
    topic_matches(log, 0, &params.topic0) && topic_matches(log, 1, &params.topic1)
        && topic_matches(log, 2, &params.topic2) && topic_matches(log, 3, &params.topic3)
}

/// `erc20_transfers` by-block: shape, and sender and receiver. Given topics are
/// ignored.
pub fn matches_erc20_transfer(log: &Log, params: &Params) -> (row: bool)
    ensures
        row == is_row(Datatype::Erc20Transfers, log@, *params),
{
    is_erc20_transfer(log) && topic_matches(log, 1, &params.from_address) && topic_matches(
        log,
        2,
        &params.to_address,
    )
}

/// `erc20_approvals` by-block: shape, and sender and receiver.
pub fn matches_erc20_approval(log: &Log, params: &Params) -> (row: bool)
    ensures
        row == is_row(Datatype::Erc20Approvals, log@, *params),
{
    is_erc20_approval(log) && topic_matches(log, 1, &params.from_address) && topic_matches(
        log,
        2,
        &params.to_address,
    )
}

/// `erc721_transfers` by-block: shape, and sender and receiver.
pub fn matches_erc721_transfer(log: &Log, params: &Params) -> (row: bool)
    ensures
        row == is_row(Datatype::Erc721Transfers, log@, *params),
{
    is_erc721_transfer(log) && topic_matches(log, 1, &params.from_address) && topic_matches(
        log,
        2,
        &params.to_address,
    )
}

/// `erc20_wrapper_events` by-block: shape, and the indexed account.
pub fn matches_erc20_wrapper(log: &Log, params: &Params) -> (row: bool)
    ensures
        row == is_row(Datatype::Erc20WrapperEvents, log@, *params),
{
    is_wrapper_event(log) && topic_matches(log, 1, &params.topic1)
}

/// A member's rows with more added, if the member is requested.
pub open spec fn with_rows(
    rows: Seq<LogModel>,
    requested: bool,
    added: Seq<LogModel>,
) -> Seq<LogModel> {
    if requested {
        rows + added
    } else {
        rows
    }
}

/// The accumulators after each requested member took the logs that are rows of it.
pub open spec fn fanned_out(
    columns: LogEventsModel,
    logs: Seq<LogModel>,
    row: spec_fn(Datatype, LogModel) -> bool,
    query: Query,
) -> LogEventsModel {
    let schemas = query.schemas@;
    LogEventsModel {
        logs: with_rows(
            columns.logs,
            schemas.contains_key(Datatype::Logs),
            logs.filter(|log: LogModel| row(Datatype::Logs, log)),
        ),
        erc20_transfers: with_rows(
            columns.erc20_transfers,
            schemas.contains_key(Datatype::Erc20Transfers),
            logs.filter(|log: LogModel| row(Datatype::Erc20Transfers, log)),
        ),
        erc20_approvals: with_rows(
            columns.erc20_approvals,
            schemas.contains_key(Datatype::Erc20Approvals),
            logs.filter(|log: LogModel| row(Datatype::Erc20Approvals, log)),
        ),
        erc721_transfers: with_rows(
            columns.erc721_transfers,
            schemas.contains_key(Datatype::Erc721Transfers),
            logs.filter(|log: LogModel| row(Datatype::Erc721Transfers, log)),
        ),
        erc20_wrapper_events: if schemas.contains_key(Datatype::Erc20WrapperEvents) {
            with_wrapper_rows(
                columns.erc20_wrapper_events,
                logs.filter(|log: LogModel| row(Datatype::Erc20WrapperEvents, log)),
                schemas[Datatype::Erc20WrapperEvents]@,
            )
        } else {
            columns.erc20_wrapper_events
        },
    }
}

fn append_rows(rows: &mut Vec<Log>, added: Vec<Log>)
    ensures
        views(final(rows)@) == views(old(rows)@) + views(added@),
{
    let mut added = added;
    let ghost before = rows@;
    let ghost extra = added@;
    rows.append(&mut added);
    assert(views(rows@) =~= views(before) + views(extra));
}

proof fn lemma_wrapper_rows_have_parts(
    logs: Seq<LogModel>,
    kept: spec_fn(LogModel) -> bool,
    schema: Seq<Seq<char>>,
)
    requires
        forall|log: LogModel| #[trigger] kept(log) ==> wrapper_event(log),
    ensures
        rows_have_parts(logs.filter(kept), schema),
    decreases logs.len(),
{
    reveal(Seq::filter);
    if logs.len() > 0 {
        lemma_wrapper_rows_have_parts(logs.drop_last(), kept, schema);
    }
}

/// Fan one by-block partition's union response out to each requested
/// member, applying that member's full filter.
pub fn fan_out_block(
    request: &Params,
    response: &Vec<Log>,
    columns: &mut LogEvents,
    query: &Query,
) -> (done: R<()>)
    requires
        old(columns).erc20_wrapper_events.n_rows + response@.len() <= u64::MAX,
    ensures
        done is Ok,
        final(columns)@ == fanned_out(
            old(columns)@,
            views(response@),
            |member: Datatype, log: LogModel| is_row(member, log, *request),
            *query,
        ),
{
    let ghost row = |member: Datatype, log: LogModel| is_row(member, log, *request);
    let ghost logs = views(response@);
    if query.schemas.contains_key(&Datatype::Logs) {
        let keep = |log: &Log| -> (kept: bool)
            ensures
                kept == is_row(Datatype::Logs, log@, *request),
            { matches_logs(log, request) };
        let ghost kept = |log: LogModel| row(Datatype::Logs, log);
        let rows = select_logs(response, keep, Ghost(kept));
        append_rows(&mut columns.logs, rows);
    }
    if query.schemas.contains_key(&Datatype::Erc20Transfers) {
        let keep = |log: &Log| -> (kept: bool)
            ensures
                kept == is_row(Datatype::Erc20Transfers, log@, *request),
            { matches_erc20_transfer(log, request) };
        let ghost kept = |log: LogModel| row(Datatype::Erc20Transfers, log);
        let rows = select_logs(response, keep, Ghost(kept));
        append_rows(&mut columns.erc20_transfers, rows);
    }
    if query.schemas.contains_key(&Datatype::Erc20Approvals) {
        let keep = |log: &Log| -> (kept: bool)
            ensures
                kept == is_row(Datatype::Erc20Approvals, log@, *request),
            { matches_erc20_approval(log, request) };
        let ghost kept = |log: LogModel| row(Datatype::Erc20Approvals, log);
        let rows = select_logs(response, keep, Ghost(kept));
        append_rows(&mut columns.erc20_approvals, rows);
    }
    if query.schemas.contains_key(&Datatype::Erc721Transfers) {
        let keep = |log: &Log| -> (kept: bool)
            ensures
                kept == is_row(Datatype::Erc721Transfers, log@, *request),
            { matches_erc721_transfer(log, request) };
        let ghost kept = |log: LogModel| row(Datatype::Erc721Transfers, log);
        let rows = select_logs(response, keep, Ghost(kept));
        append_rows(&mut columns.erc721_transfers, rows);
    }
    if query.schemas.contains_key(&Datatype::Erc20WrapperEvents) {
        let keep = |log: &Log| -> (kept: bool)
            ensures
                kept == is_row(Datatype::Erc20WrapperEvents, log@, *request),
            { matches_erc20_wrapper(log, request) };
        let ghost kept = |log: LogModel| row(Datatype::Erc20WrapperEvents, log);
        let rows = select_logs(response, keep, Ghost(kept));
        let schema = query.schemas.get_schema(&Datatype::Erc20WrapperEvents)?;
        proof {
            lemma_kept_len(logs, kept);
            lemma_wrapper_rows_have_parts(logs, kept, schema@);
        }
        process_wrapper_events(&rows, &mut columns.erc20_wrapper_events, schema);
    }
    Ok(())
}

/// Fan one by-transaction partition's logs out to each requested member.
///
/// Raw logs take every log, the others those of their shape and signature.
pub fn fan_out_transaction(
    response: &Vec<Log>,
    columns: &mut LogEvents,
    query: &Query,
) -> (done: R<()>)
    requires
        old(columns).erc20_wrapper_events.n_rows + response@.len() <= u64::MAX,
    ensures
        done is Ok,
        final(columns)@ == fanned_out(
            old(columns)@,
            views(response@),
            |member: Datatype, log: LogModel| is_transaction_row(member, log),
            *query,
        ),
{
    let ghost row = |member: Datatype, log: LogModel| is_transaction_row(member, log);
    let ghost logs = views(response@);
    if query.schemas.contains_key(&Datatype::Logs) {
        let keep = |log: &Log| -> (kept: bool)
            ensures
                kept == is_transaction_row(Datatype::Logs, log@),
            { true };
        let ghost kept = |log: LogModel| row(Datatype::Logs, log);
        let rows = select_logs(response, keep, Ghost(kept));
        append_rows(&mut columns.logs, rows);
    }
    if query.schemas.contains_key(&Datatype::Erc20Transfers) {
        let keep = |log: &Log| -> (kept: bool)
            ensures
                kept == is_transaction_row(Datatype::Erc20Transfers, log@),
            { is_erc20_transfer(log) };
        let ghost kept = |log: LogModel| row(Datatype::Erc20Transfers, log);
        let rows = select_logs(response, keep, Ghost(kept));
        append_rows(&mut columns.erc20_transfers, rows);
    }
    if query.schemas.contains_key(&Datatype::Erc20Approvals) {
        let keep = |log: &Log| -> (kept: bool)
            ensures
                kept == is_transaction_row(Datatype::Erc20Approvals, log@),
            { is_erc20_approval(log) };
        let ghost kept = |log: LogModel| row(Datatype::Erc20Approvals, log);
        let rows = select_logs(response, keep, Ghost(kept));
        append_rows(&mut columns.erc20_approvals, rows);
    }
    if query.schemas.contains_key(&Datatype::Erc721Transfers) {
        let keep = |log: &Log| -> (kept: bool)
            ensures
                kept == is_transaction_row(Datatype::Erc721Transfers, log@),
            { is_erc721_transfer(log) };
        let ghost kept = |log: LogModel| row(Datatype::Erc721Transfers, log);
        let rows = select_logs(response, keep, Ghost(kept));
        append_rows(&mut columns.erc721_transfers, rows);
    }
    if query.schemas.contains_key(&Datatype::Erc20WrapperEvents) {
        let keep = |log: &Log| -> (kept: bool)
            ensures
                kept == is_transaction_row(Datatype::Erc20WrapperEvents, log@),
            { is_wrapper_event(log) };
        let ghost kept = |log: LogModel| row(Datatype::Erc20WrapperEvents, log);
        let rows = select_logs(response, keep, Ghost(kept));
        let schema = query.schemas.get_schema(&Datatype::Erc20WrapperEvents)?;
        proof {
            lemma_kept_len(logs, kept);
            lemma_wrapper_rows_have_parts(logs, kept, schema@);
        }
        process_wrapper_events(&rows, &mut columns.erc20_wrapper_events, schema);
    }
    Ok(())
}

/// The words that an optional topic allows: any when it is absent, else the one
/// word it holds. Bytes that are no topic allow nothing to be asked.
pub open spec fn topic_words(bytes: Option<Seq<u8>>) -> Option<Seq<Seq<u8>>> {
    match bytes {
        None => Some(Seq::empty()),
        Some(word) => if word.len() == 32 {
            Some(seq![word])
        } else {
            None
        },
    }
}

/// The filter of a transfer or approval dataset that is collected alone: its
/// signature, and the sender and receiver as the indexed accounts.
pub open spec fn accounts_filter(params: Params, signature: Seq<u8>) -> Option<FilterModel> {
    match (
        log_filter(params),
        topic_words(option_view(params.from_address)),
        topic_words(option_view(params.to_address)),
    ) {
        (Ok(base), Some(from), Some(to)) => Some(
            FilterModel { topics: seq![seq![signature], from, to, Seq::empty()], ..base },
        ),
        _ => None,
    }
}

/// The filter of a member that is collected alone, if the parameters describe one.
pub open spec fn own_filter(member: Datatype, params: Params) -> Option<FilterModel> {
    match member {
        Datatype::Logs => log_filter(params).ok(),
        Datatype::Erc20Transfers => accounts_filter(params, TRANSFER_SIGNATURE_HASH@),
        Datatype::Erc20Approvals => accounts_filter(params, APPROVAL_SIGNATURE_HASH@),
        Datatype::Erc721Transfers => accounts_filter(params, TRANSFER_SIGNATURE_HASH@),
        Datatype::Erc20WrapperEvents => wrapper_log_filter(params).ok(),
        _ => None,
    }
}

/// The shape that a member collected alone asks of the logs in its response.
pub open spec fn own_shape(member: Datatype, log: LogModel) -> bool {
    match member {
        Datatype::Erc20Transfers => has_shape(log, 3, 32),
        Datatype::Erc20Approvals => has_shape(log, 3, 32),
        Datatype::Erc721Transfers => has_shape(log, 4, 0),
        Datatype::Erc20WrapperEvents => has_shape(log, 2, 32),
        _ => true,
    }
}

proof fn lemma_with_word(words: Seq<Seq<u8>>, wanted: bool, word: Seq<u8>)
    ensures
        forall|w: Seq<u8>| #[trigger]
            with_word(words, wanted, word).contains(w) <==> words.contains(w) || (wanted && w
                == word),
        words.no_duplicates() ==> with_word(words, wanted, word).no_duplicates(),
{
    assert forall|w: Seq<u8>| #[trigger]
        words.push(word).contains(w) <==> words.contains(w) || w == word by {
        lemma_push_contains(words, word, w);
    }
}

/// What the shared list of first topics holds, where it constrains at all: the
/// given first topic, and the signature hashes of the requested members.
pub proof fn law_union_topic0_is_the_union(
    topic0: Option<Seq<u8>>,
    active: Set<Datatype>,
    word: Seq<u8>,
)
    requires
        !(active.contains(Datatype::Logs) && topic0 is None),
    ensures
        union_topic0(topic0, active).no_duplicates(),
        union_topic0(topic0, active).contains(word) <==> {
            ||| topic0 == Some(word)
            ||| word == TRANSFER_SIGNATURE_HASH@ && (active.contains(Datatype::Erc20Transfers)
                || active.contains(Datatype::Erc721Transfers))
            ||| word == APPROVAL_SIGNATURE_HASH@ && active.contains(Datatype::Erc20Approvals)
            ||| (word == DEPOSIT_SIGNATURE_HASH@ || word == WITHDRAWAL_SIGNATURE_HASH@)
                && active.contains(Datatype::Erc20WrapperEvents)
        },
{
    let given = match topic0 {
        Some(word) => seq![word],
        None => Seq::empty(),
    };
    assert(given.no_duplicates());
    assert(given.contains(word) <==> topic0 == Some(word)) by {
        if topic0 == Some(word) {
            assert(given[0] == word);
        }
    }
    let transfer = active.contains(Datatype::Erc20Transfers) || active.contains(
        Datatype::Erc721Transfers,
    );
    let transfers = with_word(given, transfer, TRANSFER_SIGNATURE_HASH@);
    let approval = active.contains(Datatype::Erc20Approvals);
    let approvals = with_word(transfers, approval, APPROVAL_SIGNATURE_HASH@);
    let wrapper = active.contains(Datatype::Erc20WrapperEvents);
    let deposits = with_word(approvals, wrapper, DEPOSIT_SIGNATURE_HASH@);
    lemma_with_word(given, transfer, TRANSFER_SIGNATURE_HASH@);
    lemma_with_word(transfers, approval, APPROVAL_SIGNATURE_HASH@);
    lemma_with_word(approvals, wrapper, DEPOSIT_SIGNATURE_HASH@);
    lemma_with_word(deposits, wrapper, WITHDRAWAL_SIGNATURE_HASH@);
    let union = with_word(deposits, wrapper, WITHDRAWAL_SIGNATURE_HASH@);
    assert(union.contains(word) <==> deposits.contains(word) || (wrapper && word
        == WITHDRAWAL_SIGNATURE_HASH@));
    assert(deposits.contains(word) <==> approvals.contains(word) || (wrapper && word
        == DEPOSIT_SIGNATURE_HASH@));
    assert(approvals.contains(word) <==> transfers.contains(word) || (approval && word
        == APPROVAL_SIGNATURE_HASH@));
    assert(transfers.contains(word) <==> given.contains(word) || (transfer && word
        == TRANSFER_SIGNATURE_HASH@));
}

pub proof fn lemma_one_word(words: Seq<Seq<u8>>, word: Seq<u8>, value: Option<Seq<u8>>)
    requires
        words == seq![word],
    ensures
        list_allows(words, value) <==> value == Some(word),
{
    assert(words[0] == word);
}

/// For one log: it is a row of a requested member exactly where that member's
/// own filter and shape accept it, and then the shared filter admits it too.
pub proof fn lemma_row_of_member(
    member: Datatype,
    params: Params,
    active: Set<Datatype>,
    log: LogModel,
)
    requires
        MultiDatatype::LogEvents.members().contains(member),
        active.contains(member),
        own_filter(member, params) is Some,
    ensures
        union_filter(params, active) is Ok,
        admits(own_filter(member, params)->0, log) ==> admits(
            union_filter(params, active)->Ok_0,
            log,
        ),
        (admits(own_filter(member, params)->0, log) && own_shape(member, log)) == (admits(
            union_filter(params, active)->Ok_0,
            log,
        ) && is_row(member, log, params)),
{
    let own = own_filter(member, params)->0;
    let shared = union_filter(params, active)->Ok_0;
    let base = log_filter(params)->Ok_0;
    let topic0 = option_view(params.topic0);
    if topic0 is Some {
        lemma_one_word(seq![topic0->0], topic0->0, topic_at(log, 0));
    }
    if option_view(params.topic1) is Some {
        let word = option_view(params.topic1)->0;
        lemma_one_word(seq![word], word, topic_at(log, 1));
    }
    if option_view(params.topic2) is Some {
        let word = option_view(params.topic2)->0;
        lemma_one_word(seq![word], word, topic_at(log, 2));
    }
    if option_view(params.topic3) is Some {
        let word = option_view(params.topic3)->0;
        lemma_one_word(seq![word], word, topic_at(log, 3));
    }
    if option_view(params.from_address) is Some {
        let word = option_view(params.from_address)->0;
        lemma_one_word(seq![word], word, topic_at(log, 1));
    }
    if option_view(params.to_address) is Some {
        let word = option_view(params.to_address)->0;
        lemma_one_word(seq![word], word, topic_at(log, 2));
    }
    lemma_one_word(seq![TRANSFER_SIGNATURE_HASH@], TRANSFER_SIGNATURE_HASH@, topic_at(log, 0));
    lemma_one_word(seq![APPROVAL_SIGNATURE_HASH@], APPROVAL_SIGNATURE_HASH@, topic_at(log, 0));
    let wrapper = seq![DEPOSIT_SIGNATURE_HASH@, WITHDRAWAL_SIGNATURE_HASH@];
    assert(wrapper[0] == DEPOSIT_SIGNATURE_HASH@ && wrapper[1] == WITHDRAWAL_SIGNATURE_HASH@);
    assert(list_allows(wrapper, topic_at(log, 0)) <==> has_topic(log, 0, DEPOSIT_SIGNATURE_HASH@)
        || has_topic(log, 0, WITHDRAWAL_SIGNATURE_HASH@));
    if !(active.contains(Datatype::Logs) && topic0 is None) && topic_at(log, 0) is Some {
        law_union_topic0_is_the_union(topic0, active, topic_at(log, 0)->0);
    }
    if !(active.contains(Datatype::Logs) && topic0 is None) {
        law_union_topic0_is_the_union(topic0, active, TRANSFER_SIGNATURE_HASH@);
        law_union_topic0_is_the_union(topic0, active, APPROVAL_SIGNATURE_HASH@);
        law_union_topic0_is_the_union(topic0, active, DEPOSIT_SIGNATURE_HASH@);
    }
}

/// The shared filter is a superset of every requested member's own filter: no
/// member loses a log that it would have seen alone.
pub proof fn law_union_admits_what_members_admit(
    member: Datatype,
    params: Params,
    active: Set<Datatype>,
    log: LogModel,
)
    requires
        MultiDatatype::LogEvents.members().contains(member),
        active.contains(member),
        own_filter(member, params) is Some,
        admits(own_filter(member, params)->0, log),
    ensures
        union_filter(params, active) is Ok,
        admits(union_filter(params, active)->Ok_0, log),
{
    lemma_row_of_member(member, params, active, log);
}

/// Each requested member receives exactly the rows that it would have collected
/// alone: of all the logs of the chain, those that the shared filter admits and
/// that are rows of the member are those that its own filter admits and that
/// have its shape, in the same order.
pub proof fn law_members_receive_their_own_rows(
    member: Datatype,
    params: Params,
    active: Set<Datatype>,
    chain: Seq<LogModel>,
)
    requires
        MultiDatatype::LogEvents.members().contains(member),
        active.contains(member),
        own_filter(member, params) is Some,
    ensures
        union_filter(params, active) is Ok,
        chain.filter(|log: LogModel| admits(union_filter(params, active)->Ok_0, log)).filter(
            |log: LogModel| is_row(member, log, params),
        ) == chain.filter(|log: LogModel| admits(own_filter(member, params)->0, log)).filter(
            |log: LogModel| own_shape(member, log),
        ),
{
    let both = |log: LogModel|
        admits(own_filter(member, params)->0, log) && own_shape(member, log);
    assert forall|log: LogModel| #[trigger]
        both(log) == (admits(union_filter(params, active)->Ok_0, log) && is_row(
            member,
            log,
            params,
        )) && union_filter(params, active) is Ok by {
        lemma_row_of_member(member, params, active, log);
    }
    assert(union_filter(params, active) is Ok);
    lemma_filter_twice(
        chain,
        |log: LogModel| admits(union_filter(params, active)->Ok_0, log),
        |log: LogModel| is_row(member, log, params),
        both,
    );
    lemma_filter_twice(
        chain,
        |log: LogModel| admits(own_filter(member, params)->0, log),
        |log: LogModel| own_shape(member, log),
        both,
    );
}

/// The rows that a member collects alone from the logs of the chain.
pub open spec fn own_rows(member: Datatype, params: Params, chain: Seq<LogModel>) -> Seq<LogModel> {
    chain.filter(|log: LogModel| admits(own_filter(member, params)->0, log)).filter(
        |log: LogModel| own_shape(member, log),
    )
}

/// Collecting members together does not change what they collect: once the logs
/// of the chain that the shared filter admits are fanned out, each requested
/// member has the rows that it would have collected alone added, in order.
pub proof fn law_coalesced_members_collect_as_alone(
    columns: LogEventsModel,
    params: Params,
    query: Query,
    chain: Seq<LogModel>,
)
    requires
        forall|member: Datatype|
            MultiDatatype::LogEvents.members().contains(member) && query.schemas@.contains_key(
                member,
            ) ==> (#[trigger] own_filter(member, params)) is Some,
        exists|member: Datatype|
            MultiDatatype::LogEvents.members().contains(member)
                && #[trigger] query.schemas@.contains_key(member),
    ensures
        union_filter(params, query.schemas@.dom()) is Ok,
        ({
            let schemas = query.schemas@;
            let shared = union_filter(params, schemas.dom())->Ok_0;
            let response = chain.filter(|log: LogModel| admits(shared, log));
            let row = |member: Datatype, log: LogModel| is_row(member, log, params);
            let after = fanned_out(columns, response, row, query);
            &&& schemas.contains_key(Datatype::Logs) ==> after.logs == columns.logs + own_rows(
                Datatype::Logs,
                params,
                chain,
            )
            &&& schemas.contains_key(Datatype::Erc20Transfers) ==> after.erc20_transfers
                == columns.erc20_transfers + own_rows(Datatype::Erc20Transfers, params, chain)
            &&& schemas.contains_key(Datatype::Erc20Approvals) ==> after.erc20_approvals
                == columns.erc20_approvals + own_rows(Datatype::Erc20Approvals, params, chain)
            &&& schemas.contains_key(Datatype::Erc721Transfers) ==> after.erc721_transfers
                == columns.erc721_transfers + own_rows(Datatype::Erc721Transfers, params, chain)
            &&& schemas.contains_key(Datatype::Erc20WrapperEvents) ==> after.erc20_wrapper_events
                == with_wrapper_rows(
                columns.erc20_wrapper_events,
                own_rows(Datatype::Erc20WrapperEvents, params, chain),
                schemas[Datatype::Erc20WrapperEvents]@,
            )
        }),
{
    let active = query.schemas@.dom();
    let shared = union_filter(params, active)->Ok_0;
    let response = chain.filter(|log: LogModel| admits(shared, log));
    let row = |member: Datatype, log: LogModel| is_row(member, log, params);
    let members = MultiDatatype::LogEvents.members();
    assert(members[0] == Datatype::Logs && members[1] == Datatype::Erc20Transfers && members[2]
        == Datatype::Erc20Approvals && members[3] == Datatype::Erc721Transfers && members[4]
        == Datatype::Erc20WrapperEvents);
    assert forall|member: Datatype|
        members.contains(member) && #[trigger] query.schemas@.contains_key(
            member,
        ) implies union_filter(params, active) is Ok && response.filter(
        |log: LogModel| row(member, log),
    ) == own_rows(member, params, chain) by {
        assert(own_filter(member, params) is Some);
        law_members_receive_their_own_rows(member, params, active, chain);
        assert((|log: LogModel| row(member, log)) =~= (|log: LogModel|
            is_row(member, log, params)));
    }
}

/// Whether the parameters put no constraint on topics or accounts.
pub open spec fn not_narrowed(params: Params) -> bool {
    &&& params.topic0 is None
    &&& params.topic1 is None
    &&& params.topic2 is None
    &&& params.topic3 is None
    &&& params.from_address is None
    &&& params.to_address is None
}

/// Collected by block, a member has no rows that it does not have by
/// transaction, and it has the same rows where the parameters do not narrow it.
pub proof fn law_parameters_only_narrow(member: Datatype, log: LogModel, params: Params)
    ensures
        is_row(member, log, params) ==> is_transaction_row(member, log),
        not_narrowed(params) ==> is_row(member, log, params) == is_transaction_row(member, log),
{
}

/// A log has only whole topics, so bytes of another width match no log.
pub proof fn law_malformed_topic_matches_nothing(log: LogModel, position: int, want: Seq<u8>)
    requires
        0 <= position,
        forall|i: int| 0 <= i < log.topics.len() ==> (#[trigger] log.topics[i]).len() == 32,
        want.len() != 32,
    ensures
        !topic_fits(log, position, Some(want)),
{
}

/// A member that was not requested keeps its accumulator, whatever is fanned out.
pub proof fn law_fan_out_leaves_others_alone(
    columns: LogEventsModel,
    logs: Seq<LogModel>,
    row: spec_fn(Datatype, LogModel) -> bool,
    query: Query,
)
    ensures
        ({
            let schemas = query.schemas@;
            let after = fanned_out(columns, logs, row, query);
            &&& !schemas.contains_key(Datatype::Logs) ==> after.logs == columns.logs
            &&& !schemas.contains_key(Datatype::Erc20Transfers) ==> after.erc20_transfers
                == columns.erc20_transfers
            &&& !schemas.contains_key(Datatype::Erc20Approvals) ==> after.erc20_approvals
                == columns.erc20_approvals
            &&& !schemas.contains_key(Datatype::Erc721Transfers) ==> after.erc721_transfers
                == columns.erc721_transfers
            &&& !schemas.contains_key(Datatype::Erc20WrapperEvents) ==> after.erc20_wrapper_events
                == columns.erc20_wrapper_events
        }),
{
}

/// The accumulators of one member.
#[derive(Debug)]
pub enum MemberRows {
    /// rows of raw logs
    Logs(Vec<Log>),
    /// rows of erc20 transfers
    Erc20Transfers(Vec<Log>),
    /// rows of erc20 approvals
    Erc20Approvals(Vec<Log>),
    /// rows of erc721 transfers
    Erc721Transfers(Vec<Log>),
    /// columns of erc20 wrapper events
    Erc20WrapperEvents(Erc20WrapperEvents),
}

/// The model of the accumulator of one member.
pub enum MemberModel {
    Logs(Seq<LogModel>),
    Erc20Transfers(Seq<LogModel>),
    Erc20Approvals(Seq<LogModel>),
    Erc721Transfers(Seq<LogModel>),
    Erc20WrapperEvents(WrapperColumns),
}

impl View for MemberRows {
    type V = MemberModel;

    open spec fn view(&self) -> MemberModel {
        match self {
            MemberRows::Logs(rows) => MemberModel::Logs(views(rows@)),
            MemberRows::Erc20Transfers(rows) => MemberModel::Erc20Transfers(views(rows@)),
            MemberRows::Erc20Approvals(rows) => MemberModel::Erc20Approvals(views(rows@)),
            MemberRows::Erc721Transfers(rows) => MemberModel::Erc721Transfers(views(rows@)),
            MemberRows::Erc20WrapperEvents(columns) => MemberModel::Erc20WrapperEvents(columns@),
        }
    }
}

/// One accumulator, if its member is requested.
pub open spec fn if_requested(
    schemas: Map<Datatype, Table>,
    member: Datatype,
    rows: MemberModel,
) -> Seq<MemberModel> {
    if schemas.contains_key(member) {
        seq![rows]
    } else {
        Seq::empty()
    }
}

/// The accumulators of the requested members.
pub open spec fn requested_members(
    columns: LogEventsModel,
    schemas: Map<Datatype, Table>,
) -> Seq<MemberModel> {
    if_requested(schemas, Datatype::Logs, MemberModel::Logs(columns.logs)) + if_requested(
        schemas,
        Datatype::Erc20Transfers,
        MemberModel::Erc20Transfers(columns.erc20_transfers),
    ) + if_requested(
        schemas,
        Datatype::Erc20Approvals,
        MemberModel::Erc20Approvals(columns.erc20_approvals),
    ) + if_requested(
        schemas,
        Datatype::Erc721Transfers,
        MemberModel::Erc721Transfers(columns.erc721_transfers),
    ) + if_requested(
        schemas,
        Datatype::Erc20WrapperEvents,
        MemberModel::Erc20WrapperEvents(columns.erc20_wrapper_events),
    )
}

fn push_requested(
    members: &mut Vec<MemberRows>,
    schemas: &Schemas,
    member: Datatype,
    rows: MemberRows,
)
    ensures
        views(final(members)@) == views(old(members)@) + if_requested(schemas@, member, rows@),
{
    broadcast use lemma_views_push;

    if schemas.contains_key(&member) {
        members.push(rows);
    }
    assert(views(members@) =~= views(old(members)@) + if_requested(schemas@, member, rows@));
}

/// No rows in any accumulator.
pub open spec fn no_log_rows() -> LogEventsModel {
    LogEventsModel {
        logs: Seq::empty(),
        erc20_transfers: Seq::empty(),
        erc20_approvals: Seq::empty(),
        erc721_transfers: Seq::empty(),
        erc20_wrapper_events: no_wrapper_rows(),
    }
}

impl Default for LogEvents {
    fn default() -> (columns: LogEvents)
        ensures
            columns@ == no_log_rows(),
    {
        let columns = LogEvents {
            logs: Vec::new(),
            erc20_transfers: Vec::new(),
            erc20_approvals: Vec::new(),
            erc721_transfers: Vec::new(),
            erc20_wrapper_events: Erc20WrapperEvents::default(),
        };
        assert(columns@ =~= no_log_rows());
        columns
    }
}

impl LogEvents {
    /// the one log request that serves every requested member
    pub fn block_log_filter(request: &Params, query: &Query) -> (filter: R<Filter>)
        ensures
            result_view(filter) == union_filter(*request, query.schemas@.dom()),
    {
        let active = query.schemas.datatypes();
        proof {
            lemma_requested_datatypes(query.schemas@, active@);
        }
        build_union_filter(request, &active)
    }

    /// the accumulators that become dataframes: those of the requested members
    pub fn active_members(self, schemas: &Schemas) -> (members: Vec<MemberRows>)
        ensures
            views(members@) == requested_members(self@, schemas@),
    {
        let LogEvents {
            logs,
            erc20_transfers,
            erc20_approvals,
            erc721_transfers,
            erc20_wrapper_events,
        } = self;
        let mut members: Vec<MemberRows> = Vec::new();
        push_requested(&mut members, schemas, Datatype::Logs, MemberRows::Logs(logs));
        push_requested(
            &mut members,
            schemas,
            Datatype::Erc20Transfers,
            MemberRows::Erc20Transfers(erc20_transfers),
        );
        push_requested(
            &mut members,
            schemas,
            Datatype::Erc20Approvals,
            MemberRows::Erc20Approvals(erc20_approvals),
        );
        push_requested(
            &mut members,
            schemas,
            Datatype::Erc721Transfers,
            MemberRows::Erc721Transfers(erc721_transfers),
        );
        push_requested(
            &mut members,
            schemas,
            Datatype::Erc20WrapperEvents,
            MemberRows::Erc20WrapperEvents(erc20_wrapper_events),
        );
        assert(views(members@) =~= requested_members(self@, schemas@));
        members
    }
}

proof fn lemma_requested_datatypes(schemas: Map<Datatype, Table>, requested: Seq<Datatype>)
    requires
        requested == all_datatypes().filter(|datatype: Datatype| schemas.contains_key(datatype)),
    ensures
        requested.to_set() == schemas.dom(),
{
    let keep = |datatype: Datatype| schemas.contains_key(datatype);
    assert forall|datatype: Datatype| #[trigger]
        requested.to_set().contains(datatype) == schemas.dom().contains(datatype) by {
        law_every_datatype_is_listed_once(datatype);
        assert(all_datatypes().contains(datatype));
        lemma_filter_contains(all_datatypes(), datatype, keep);
    }
    assert(requested.to_set() =~= schemas.dom());
}

impl Collect<ByBlock> for LogEvents {
    /// The parameters come with the logs, so that each member's full filter can
    /// be applied.
    type Response = (Params, Vec<Log>);

    open spec fn no_rows() -> LogEventsModel {
        no_log_rows()
    }

    open spec fn row_count(columns: LogEventsModel) -> nat {
        columns.erc20_wrapper_events.n_rows
    }

    open spec fn most_rows(response: (Params, Vec<Log>)) -> nat {
        response.1@.len()
    }

    open spec fn has_parts(response: (Params, Vec<Log>), query: Query) -> bool {
        true
    }

    open spec fn transformed(
        response: (Params, Vec<Log>),
        columns: LogEventsModel,
        query: Query,
    ) -> Result<LogEventsModel, Seq<char>> {
        Ok(
            fanned_out(
                columns,
                views(response.1@),
                |member: Datatype, log: LogModel| is_row(member, log, response.0),
                query,
            ),
        )
    }

    fn empty() -> (columns: LogEvents) {
        LogEvents::default()
    }

    fn transform(response: (Params, Vec<Log>), columns: &mut LogEvents, query: &Query) -> (done: R<
        (),
    >) {
        let (request, logs) = response;
        proof {
            let row = |member: Datatype, log: LogModel| is_row(member, log, request);
            lemma_fanned_out_count(columns@, views(logs@), row, *query);
        }
        fan_out_block(&request, &logs, columns, query)
    }
}

impl Collect<ByTransaction> for LogEvents {
    type Response = Vec<Log>;

    open spec fn no_rows() -> LogEventsModel {
        no_log_rows()
    }

    open spec fn row_count(columns: LogEventsModel) -> nat {
        columns.erc20_wrapper_events.n_rows
    }

    open spec fn most_rows(response: Vec<Log>) -> nat {
        response@.len()
    }

    open spec fn has_parts(response: Vec<Log>, query: Query) -> bool {
        true
    }

    open spec fn transformed(response: Vec<Log>, columns: LogEventsModel, query: Query) -> Result<
        LogEventsModel,
        Seq<char>,
    > {
        Ok(
            fanned_out(
                columns,
                views(response@),
                |member: Datatype, log: LogModel| is_transaction_row(member, log),
                query,
            ),
        )
    }

    fn empty() -> (columns: LogEvents) {
        LogEvents::default()
    }

    fn transform(response: Vec<Log>, columns: &mut LogEvents, query: &Query) -> (done: R<()>) {
        proof {
            let row = |member: Datatype, log: LogModel| is_transaction_row(member, log);
            lemma_fanned_out_count(columns@, views(response@), row, *query);
        }
        fan_out_transaction(&response, columns, query)
    }
}

proof fn lemma_fanned_out_count(
    columns: LogEventsModel,
    logs: Seq<LogModel>,
    row: spec_fn(Datatype, LogModel) -> bool,
    query: Query,
)
    ensures
        fanned_out(columns, logs, row, query).erc20_wrapper_events.n_rows
            <= columns.erc20_wrapper_events.n_rows + logs.len(),
{
    let rows = logs.filter(|log: LogModel| row(Datatype::Erc20WrapperEvents, log));
    lemma_kept_len(logs, |log: LogModel| row(Datatype::Erc20WrapperEvents, log));
    lemma_kept_len(rows, |log: LogModel| gives_row(log));
}

impl CollectByTransaction for LogEvents {
    open spec fn collects_by_transaction() -> bool {
        true
    }

    fn can_collect_by_transaction() -> (can: bool)
        ensures
            can,
    {
        true
    }
}

} // verus!
