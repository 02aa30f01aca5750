//! Deposits and withdrawals of ERC-20 wrappers.

use vstd::prelude::*;
use vstd::slice::{slice_subrange, slice_to_vec};

use crate::bytes::{
    be_value, lemma_option_views_push, lemma_views_push, low32, low_bits, option_view,
    option_views, views, B256,
};
use crate::collection::{ByBlock, ByTransaction, Collect, CollectByTransaction};
use crate::datatypes::Datatype;
use crate::dim::Dim;
use crate::error::{result_view, R};
use crate::filter::{Filter, FilterModel};
use crate::log::{
    has_shape, has_topic, is_wrapper_event, is_wrapper_event_shape, select_logs, wrapper_event,
    Log, LogModel,
};
use crate::rpc_params::{allowed, allowed_words, log_filter, Params};
use crate::schema::{entries, lemma_stored_one, missing_schema, store, stored, Query, Table};
use crate::seqs::{lemma_filter_push, lemma_kept_len};
use crate::signatures::{
    lemma_signatures_differ, DEPOSIT_SIGNATURE_HASH, WITHDRAWAL_SIGNATURE_HASH,
};
use crate::u256::U256;

verus! {

/// columns for ERC-20 wrapper-style supply-modifying events.
///
/// Captures `Deposit(address indexed, uint256)` and
/// `Withdrawal(address indexed, uint256)`. Many tokens reuse these event
/// signatures, so indexing by signature catches them all without
/// per-contract configuration.
#[derive(Debug)]
pub struct Erc20WrapperEvents {
    /// number of stored events
    pub n_rows: u64,
    /// block number
    pub block_number: Vec<u32>,
    /// block hash
    pub block_hash: Vec<Option<Vec<u8>>>,
    /// transaction index
    pub transaction_index: Vec<u32>,
    /// log index
    pub log_index: Vec<u32>,
    /// transaction hash
    pub transaction_hash: Vec<Vec<u8>>,
    /// emitting contract
    pub erc20: Vec<Vec<u8>>,
    /// `"deposit"` or `"withdrawal"`
    pub event_type: Vec<String>,
    /// the indexed counterparty: receiver of a deposit, source of a withdrawal
    pub account: Vec<Vec<u8>>,
    /// value
    pub value: Vec<U256>,
    /// chain id
    pub chain_id: Vec<u64>,
}

/// The model of the columns.
#[verifier::ext_equal]
pub struct WrapperColumns {
    pub n_rows: nat,
    pub block_number: Seq<u32>,
    pub block_hash: Seq<Option<Seq<u8>>>,
    pub transaction_index: Seq<u32>,
    pub log_index: Seq<u32>,
    pub transaction_hash: Seq<Seq<u8>>,
    pub erc20: Seq<Seq<u8>>,
    pub event_type: Seq<Seq<char>>,
    pub account: Seq<Seq<u8>>,
    pub value: Seq<nat>,
    pub chain_id: Seq<u64>,
}

impl View for Erc20WrapperEvents {
    type V = WrapperColumns;

    open spec fn view(&self) -> WrapperColumns {
        WrapperColumns {
            n_rows: self.n_rows as nat,
            block_number: self.block_number@,
            block_hash: option_views(self.block_hash@),
            transaction_index: self.transaction_index@,
            log_index: self.log_index@,
            transaction_hash: views(self.transaction_hash@),
            erc20: views(self.erc20@),
            event_type: views(self.event_type@),
            account: views(self.account@),
            value: views(self.value@),
            chain_id: self.chain_id@,
        }
    }
}

/// Columns without rows.
pub open spec fn no_wrapper_rows() -> WrapperColumns {
    WrapperColumns {
        n_rows: 0,
        block_number: Seq::empty(),
        block_hash: Seq::empty(),
        transaction_index: Seq::empty(),
        log_index: Seq::empty(),
        transaction_hash: Seq::empty(),
        erc20: Seq::empty(),
        event_type: Seq::empty(),
        account: Seq::empty(),
        value: Seq::empty(),
        chain_id: Seq::empty(),
    }
}

/// Whether the first topic is the hash of one of the two events.
pub open spec fn wrapper_signature(log: LogModel) -> bool {
    has_topic(log, 0, DEPOSIT_SIGNATURE_HASH@) || has_topic(log, 0, WITHDRAWAL_SIGNATURE_HASH@)
}

/// Whether the log gives a row: one of the two events, at a known position.
pub open spec fn gives_row(log: LogModel) -> bool {
    &&& wrapper_signature(log)
    &&& log.block_number is Some
    &&& log.transaction_hash is Some
    &&& log.transaction_index is Some
    &&& log.log_index is Some
}

/// Whether the log has the parts that a row of the schema is made of: the
/// indexed account, and an amount of at most 32 bytes.
pub open spec fn has_row_parts(log: LogModel, schema: Seq<Seq<char>>) -> bool {
    &&& schema.contains("account"@) ==> log.topics.len() >= 2
    &&& schema.contains("value"@) ==> log.data.len() <= 32
}

/// Whether each log that gives a row has the parts of one.
pub open spec fn rows_have_parts(logs: Seq<LogModel>, schema: Seq<Seq<char>>) -> bool {
    forall|i: int|
        0 <= i < logs.len() && gives_row(#[trigger] logs[i]) ==> has_row_parts(logs[i], schema)
}

/// The name of the event.
pub open spec fn event_text(log: LogModel) -> Seq<char> {
    if has_topic(log, 0, DEPOSIT_SIGNATURE_HASH@) {
        "deposit"@
    } else {
        "withdrawal"@
    }
}

/// The columns after the rows of `logs` are added: one row for each log that
/// gives one, in order, in the columns of the schema.
pub open spec fn with_wrapper_rows(
    columns: WrapperColumns,
    logs: Seq<LogModel>,
    schema: Seq<Seq<char>>,
) -> WrapperColumns {
    let rows = logs.filter(|log: LogModel| gives_row(log));
    WrapperColumns {
        n_rows: columns.n_rows + rows.len(),
        block_number: stored(
            schema,
            "block_number"@,
            columns.block_number,
            rows.map_values(|log: LogModel| low_bits(log.block_number->0)),
        ),
        block_hash: stored(
            schema,
            "block_hash"@,
            columns.block_hash,
            rows.map_values(|log: LogModel| log.block_hash),
        ),
        transaction_index: stored(
            schema,
            "transaction_index"@,
            columns.transaction_index,
            rows.map_values(|log: LogModel| low_bits(log.transaction_index->0)),
        ),
        log_index: stored(
            schema,
            "log_index"@,
            columns.log_index,
            rows.map_values(|log: LogModel| low_bits(log.log_index->0)),
        ),
        transaction_hash: stored(
            schema,
            "transaction_hash"@,
            columns.transaction_hash,
            rows.map_values(|log: LogModel| log.transaction_hash->0),
        ),
        erc20: stored(
            schema,
            "erc20"@,
            columns.erc20,
            rows.map_values(|log: LogModel| log.address),
        ),
        event_type: stored(
            schema,
            "event_type"@,
            columns.event_type,
            rows.map_values(|log: LogModel| event_text(log)),
        ),
        account: stored(
            schema,
            "account"@,
            columns.account,
            rows.map_values(|log: LogModel| log.topics[1].skip(12)),
        ),
        value: stored(
            schema,
            "value"@,
            columns.value,
            rows.map_values(|log: LogModel| be_value(log.data)),
        ),
        ..columns
    }
}

proof fn lemma_with_next_log(
    columns: WrapperColumns,
    logs: Seq<LogModel>,
    log: LogModel,
    schema: Seq<Seq<char>>,
)
    ensures
        with_wrapper_rows(columns, logs.push(log), schema) == (if gives_row(log) {
            let before = with_wrapper_rows(columns, logs, schema);
            WrapperColumns {
                n_rows: before.n_rows + 1,
                block_number: stored(
                    schema,
                    "block_number"@,
                    before.block_number,
                    seq![low_bits(log.block_number->0)],
                ),
                block_hash: stored(
                    schema,
                    "block_hash"@,
                    before.block_hash,
                    seq![log.block_hash],
                ),
                transaction_index: stored(
                    schema,
                    "transaction_index"@,
                    before.transaction_index,
                    seq![low_bits(log.transaction_index->0)],
                ),
                log_index: stored(
                    schema,
                    "log_index"@,
                    before.log_index,
                    seq![low_bits(log.log_index->0)],
                ),
                transaction_hash: stored(
                    schema,
                    "transaction_hash"@,
                    before.transaction_hash,
                    seq![log.transaction_hash->0],
                ),
                erc20: stored(
                    schema,
                    "erc20"@,
                    before.erc20,
                    seq![log.address],
                ),
                event_type: stored(
                    schema,
                    "event_type"@,
                    before.event_type,
                    seq![event_text(log)],
                ),
                account: stored(
                    schema,
                    "account"@,
                    before.account,
                    seq![log.topics[1].skip(12)],
                ),
                value: stored(
                    schema,
                    "value"@,
                    before.value,
                    seq![be_value(log.data)],
                ),
                ..before
            }
        } else {
            with_wrapper_rows(columns, logs, schema)
        }),
{
    let keep = |log: LogModel| gives_row(log);
    lemma_filter_push(logs, log, keep);
    if gives_row(log) {
        let rows = logs.filter(keep);
        lemma_stored_next(
            schema,
            "block_number"@,
            columns.block_number,
            rows,
            log,
            |log: LogModel| low_bits(log.block_number->0),
        );
        lemma_stored_next(
            schema,
            "block_hash"@,
            columns.block_hash,
            rows,
            log,
            |log: LogModel| log.block_hash,
        );
        lemma_stored_next(
            schema,
            "transaction_index"@,
            columns.transaction_index,
            rows,
            log,
            |log: LogModel| low_bits(log.transaction_index->0),
        );
        lemma_stored_next(
            schema,
            "log_index"@,
            columns.log_index,
            rows,
            log,
            |log: LogModel| low_bits(log.log_index->0),
        );
        lemma_stored_next(
            schema,
            "transaction_hash"@,
            columns.transaction_hash,
            rows,
            log,
            |log: LogModel| log.transaction_hash->0,
        );
        lemma_stored_next(
            schema,
            "erc20"@,
            columns.erc20,
            rows,
            log,
            |log: LogModel| log.address,
        );
        lemma_stored_next(
            schema,
            "event_type"@,
            columns.event_type,
            rows,
            log,
            |log: LogModel| event_text(log),
        );
        lemma_stored_next(
            schema,
            "account"@,
            columns.account,
            rows,
            log,
            |log: LogModel| log.topics[1].skip(12),
        );
        lemma_stored_next(
            schema,
            "value"@,
            columns.value,
            rows,
            log,
            |log: LogModel| be_value(log.data),
        );
    }
}

proof fn lemma_stored_next<T>(
    schema: Seq<Seq<char>>,
    name: Seq<char>,
    column: Seq<T>,
    rows: Seq<LogModel>,
    log: LogModel,
    field: spec_fn(LogModel) -> T,
)
    ensures
        stored(schema, name, column, rows.push(log).map_values(field)) == stored(
            schema,
            name,
            stored(schema, name, column, rows.map_values(field)),
            seq![field(log)],
        ),
{
    assert(column + rows.push(log).map_values(field) =~= column + rows.map_values(field) + seq![
        field(log),
    ]);
}

/// process logs into columns
///
/// Logs with another signature, or without a position in the chain, are skipped.
pub fn process_wrapper_events(logs: &Vec<Log>, columns: &mut Erc20WrapperEvents, schema: &Table)
    requires
        old(columns).n_rows + logs@.len() <= u64::MAX,
        rows_have_parts(views(logs@), schema@),
    ensures
        final(columns)@ == with_wrapper_rows(old(columns)@, views(logs@), schema@),
{
    broadcast use {lemma_views_push, lemma_option_views_push, lemma_stored_one};

    let ghost models = views(logs@);
    let ghost start = columns@;
    let mut i: usize = 0;
    proof {
        lemma_no_logs(start, schema@);
        assert(models.take(0) =~= Seq::empty());
    }
    while i < logs.len()
        invariant
            i <= logs@.len(),
            models == views(logs@),
            columns@ == with_wrapper_rows(start, models.take(i as int), schema@),
            columns.n_rows <= start.n_rows + i,
            start.n_rows + logs@.len() <= u64::MAX,
            rows_have_parts(models, schema@),
        decreases logs@.len() - i,
    {
        let log = &logs[i];
        let ghost before = columns@;
        assert(models[i as int] == log@);
        proof {
            assert(models.take(i as int + 1) =~= models.take(i as int).push(log@));
            lemma_with_next_log(start, models.take(i as int), log@, schema@);
            lemma_signatures_differ();
        }
        i += 1;
        let event_type: &str = if log.topic_is(0, &DEPOSIT_SIGNATURE_HASH) {
            "deposit"
        } else if log.topic_is(0, &WITHDRAWAL_SIGNATURE_HASH) {
            "withdrawal"
        } else {
            continue ;
        };
        if let (
            Some(block_number),
            Some(transaction_hash),
            Some(transaction_index),
            Some(log_index),
        ) = (log.block_number, log.transaction_hash, log.transaction_index, log.log_index) {
            columns.n_rows = columns.n_rows + 1;
            store(schema, "block_number", &mut columns.block_number, low32(block_number));
            let block_hash: Option<Vec<u8>> = match &log.block_hash {
                Some(hash) => Some(slice_to_vec(hash)),
                None => None,
            };
            store(schema, "block_hash", &mut columns.block_hash, block_hash);
            store(
                schema,
                "transaction_index",
                &mut columns.transaction_index,
                low32(transaction_index),
            );
            store(schema, "log_index", &mut columns.log_index, low32(log_index));
            store(
                schema,
                "transaction_hash",
                &mut columns.transaction_hash,
                slice_to_vec(&transaction_hash),
            );
            store(schema, "erc20", &mut columns.erc20, slice_to_vec(&log.address));
            store(schema, "event_type", &mut columns.event_type, event_type.to_owned());
            if schema.has_column("account") {
                let account = slice_to_vec(slice_subrange(&log.topics[1], 12, 32));
                assert(account@ == log@.topics[1].skip(12));
                columns.account.push(account);
            }
            if schema.has_column("value") {
                columns.value.push(U256::from_be_slice(log.data.as_slice()));
            }
            assert(columns@ =~= with_wrapper_rows(start, models.take(i as int), schema@));
        }
    }
    assert(models.take(logs@.len() as int) =~= models);
}

proof fn lemma_no_logs(columns: WrapperColumns, schema: Seq<Seq<char>>)
    ensures
        with_wrapper_rows(columns, Seq::empty(), schema) == columns,
{
    reveal(Seq::filter);
    assert(with_wrapper_rows(columns, Seq::empty(), schema) =~= columns);
}

/// Whether every column of the schema has one entry per row, and the others none.
pub open spec fn wrapper_columns_aligned(columns: WrapperColumns, schema: Seq<Seq<char>>) -> bool {
    &&& columns.block_number.len() == entries(schema, "block_number"@, columns.n_rows)
    &&& columns.block_hash.len() == entries(schema, "block_hash"@, columns.n_rows)
    &&& columns.transaction_index.len() == entries(schema, "transaction_index"@, columns.n_rows)
    &&& columns.log_index.len() == entries(schema, "log_index"@, columns.n_rows)
    &&& columns.transaction_hash.len() == entries(schema, "transaction_hash"@, columns.n_rows)
    &&& columns.erc20.len() == entries(schema, "erc20"@, columns.n_rows)
    &&& columns.event_type.len() == entries(schema, "event_type"@, columns.n_rows)
    &&& columns.account.len() == entries(schema, "account"@, columns.n_rows)
    &&& columns.value.len() == entries(schema, "value"@, columns.n_rows)
}

/// The columns stay aligned: every stored column has one entry per row, however
/// many logs are processed.
pub proof fn law_wrapper_columns_stay_aligned(
    columns: WrapperColumns,
    logs: Seq<LogModel>,
    schema: Seq<Seq<char>>,
)
    ensures
        wrapper_columns_aligned(no_wrapper_rows(), schema),
        wrapper_columns_aligned(columns, schema) ==> wrapper_columns_aligned(
            with_wrapper_rows(columns, logs, schema),
            schema,
        ),
{
}

/// Processing two responses in turn adds the same rows as processing the logs
/// of both at once.
pub proof fn law_wrapper_rows_accumulate(
    columns: WrapperColumns,
    first: Seq<LogModel>,
    second: Seq<LogModel>,
    schema: Seq<Seq<char>>,
)
    ensures
        with_wrapper_rows(with_wrapper_rows(columns, first, schema), second, schema)
            == with_wrapper_rows(columns, first + second, schema),
    decreases second.len(),
{
    if second.len() == 0 {
        assert(first + second =~= first);
        assert(second =~= Seq::empty());
        lemma_no_logs(with_wrapper_rows(columns, first, schema), schema);
    } else {
        let earlier = second.drop_last();
        let log = second.last();
        law_wrapper_rows_accumulate(columns, first, earlier, schema);
        assert(second =~= earlier.push(log));
        assert(first + second =~= (first + earlier).push(log));
        lemma_with_next_log(with_wrapper_rows(columns, first, schema), earlier, log, schema);
        lemma_with_next_log(columns, first + earlier, log, schema);
    }
}

/// The log request of the dataset: both events, narrowed to the account that
/// `topic1` gives, in the block range and at the address of the parameters.
pub open spec fn wrapper_log_filter(params: Params) -> Result<FilterModel, Seq<char>> {
    match allowed_words(option_view(params.topic1), 32, "topic1"@) {
        Err(message) => Err(message),
        Ok(account) => match log_filter(params) {
            Err(message) => Err(message),
            Ok(base) => Ok(
                FilterModel {
                    topics: seq![
                        seq![DEPOSIT_SIGNATURE_HASH@, WITHDRAWAL_SIGNATURE_HASH@],
                        account,
                        Seq::empty(),
                        Seq::empty(),
                    ],
                    ..base
                },
            ),
        },
    }
}

impl Default for Erc20WrapperEvents {
    fn default() -> (columns: Erc20WrapperEvents)
        ensures
            columns@ == no_wrapper_rows(),
    {
        let columns = Erc20WrapperEvents {
            n_rows: 0,
            block_number: Vec::new(),
            block_hash: Vec::new(),
            transaction_index: Vec::new(),
            log_index: Vec::new(),
            transaction_hash: Vec::new(),
            erc20: Vec::new(),
            event_type: Vec::new(),
            account: Vec::new(),
            value: Vec::new(),
            chain_id: Vec::new(),
        };
        assert(columns@ =~= no_wrapper_rows());
        columns
    }
}

impl Erc20WrapperEvents {
    /// other names of the dataset
    pub fn aliases() -> (aliases: Vec<&'static str>)
        ensures
            views(aliases@) == seq!["wrapper_events"@, "weth_events"@],
    {
        let aliases: Vec<&'static str> = vec!["wrapper_events", "weth_events"];
        assert(views(aliases@) =~= seq!["wrapper_events"@, "weth_events"@]);
        aliases
    }

    /// columns that are stored by default
    pub fn default_columns() -> (columns: Option<Vec<&'static str>>)
        ensures
            columns matches Some(columns) && views(columns@) == seq![
                "block_number"@,
                "transaction_index"@,
                "log_index"@,
                "transaction_hash"@,
                "erc20"@,
                "event_type"@,
                "account"@,
                "value"@,
                "chain_id"@,
            ],
    {
        let columns: Vec<&'static str> = vec![
            "block_number",
            "transaction_index",
            "log_index",
            "transaction_hash",
            "erc20",
            "event_type",
            "account",
            "value",
            "chain_id",
        ];
        assert(views(columns@) =~= seq![
            "block_number"@,
            "transaction_index"@,
            "log_index"@,
            "transaction_hash"@,
            "erc20"@,
            "event_type"@,
            "account"@,
            "value"@,
            "chain_id"@,
        ]);
        Some(columns)
    }

    /// optional parameters
    ///
    /// The first topic is fixed, and the second narrows to one account; the
    /// events have no further topics.
    pub fn optional_parameters() -> (parameters: Vec<Dim>)
        ensures
            parameters@ == seq![Dim::Address, Dim::Topic1],
    {
        let parameters = vec![Dim::Address, Dim::Topic1];
        assert(parameters@ =~= seq![Dim::Address, Dim::Topic1]);
        parameters
    }

    /// whether to use block ranges instead of individual blocks
    pub fn use_block_ranges() -> (ranges: bool)
        ensures
            ranges,
    {
        true
    }

    /// preferred number of blocks per request
    pub fn default_inner_request_size() -> (blocks: u64)
        ensures
            blocks == 50,
    {
        50
    }

    /// parameters that stand for others
    pub fn arg_aliases() -> (aliases: Option<Vec<(Dim, Dim)>>)
        ensures
            aliases matches Some(aliases) && aliases@ == seq![(Dim::Contract, Dim::Address)],
    {
        let aliases = vec![(Dim::Contract, Dim::Address)];
        assert(aliases@ =~= seq![(Dim::Contract, Dim::Address)]);
        Some(aliases)
    }

    /// the log request of the dataset for one range of blocks
    ///
    /// Errors if the block range is unset, or a given word has the wrong width.
    pub fn block_log_filter(request: &Params) -> (filter: R<Filter>)
        ensures
            result_view(filter) == wrapper_log_filter(*request),
    {
        let mut signatures: Vec<B256> = Vec::new();
        signatures.push(DEPOSIT_SIGNATURE_HASH);
        signatures.push(WITHDRAWAL_SIGNATURE_HASH);
        let account = allowed::<32>(&request.topic1, "topic1")?;
        let base = request.ethers_log_filter()?;
        let filter = Filter {
            from_block: base.from_block,
            to_block: base.to_block,
            address: base.address,
            topics: [signatures, account, Vec::new(), Vec::new()],
        };
        assert(views(signatures@) =~= seq![DEPOSIT_SIGNATURE_HASH@, WITHDRAWAL_SIGNATURE_HASH@]);
        assert(views(Seq::<B256>::empty()) =~= Seq::empty());
        Ok(filter)
    }

    /// the logs of a block response that have the shape of the events
    ///
    /// Drops contracts that emit another event under one of the two hashes.
    pub fn block_response(logs: &Vec<Log>) -> (kept: Vec<Log>)
        ensures
            views(kept@) == views(logs@).filter(|log: LogModel| has_shape(log, 2, 32)),
    {
        let keep = |log: &Log| -> (kept: bool)
            ensures
                kept == has_shape(log@, 2, 32),
            { is_wrapper_event_shape(log) };
        select_logs(logs, keep, Ghost(|log: LogModel| has_shape(log, 2, 32)))
    }

    /// the logs of a transaction that are deposits or withdrawals
    ///
    /// A transaction is fetched with all its logs, so the signature is checked
    /// here too.
    pub fn transaction_response(logs: &Vec<Log>) -> (kept: Vec<Log>)
        ensures
            views(kept@) == views(logs@).filter(|log: LogModel| wrapper_event(log)),
    {
        let keep = |log: &Log| -> (kept: bool)
            ensures
                kept == wrapper_event(log@),
            { is_wrapper_event(log) };
        select_logs(logs, keep, Ghost(|log: LogModel| wrapper_event(log)))
    }
}

/// The columns with the rows of one response added, where the dataset is requested.
pub open spec fn wrapper_transformed(
    logs: Seq<LogModel>,
    columns: WrapperColumns,
    query: Query,
) -> Result<WrapperColumns, Seq<char>> {
    if query.schemas@.contains_key(Datatype::Erc20WrapperEvents) {
        Ok(with_wrapper_rows(columns, logs, query.schemas@[Datatype::Erc20WrapperEvents]@))
    } else {
        Err(missing_schema(Datatype::Erc20WrapperEvents))
    }
}

/// Whether a response can be transformed: where the dataset is requested, the
/// logs that give rows have their parts.
pub open spec fn response_has_parts(logs: Seq<LogModel>, query: Query) -> bool {
    query.schemas@.contains_key(Datatype::Erc20WrapperEvents) ==> rows_have_parts(
        logs,
        query.schemas@[Datatype::Erc20WrapperEvents]@,
    )
}

fn transform_wrapper_events(
    response: &Vec<Log>,
    columns: &mut Erc20WrapperEvents,
    query: &Query,
) -> (done: R<()>)
    requires
        response_has_parts(views(response@), *query),
        old(columns).n_rows + response@.len() <= u64::MAX,
    ensures
        match wrapper_transformed(views(response@), old(columns)@, *query) {
            Ok(columns_after) => done is Ok && final(columns)@ == columns_after,
            Err(message) => done matches Err(error) && error@ == message && final(columns)@ == old(
                columns,
            )@,
        },
{
    let schema = query.schemas.get_schema(&Datatype::Erc20WrapperEvents)?;
    process_wrapper_events(response, columns, schema);
    Ok(())
}

impl Collect<ByBlock> for Erc20WrapperEvents {
    type Response = Vec<Log>;

    open spec fn no_rows() -> WrapperColumns {
        no_wrapper_rows()
    }

    open spec fn row_count(columns: WrapperColumns) -> nat {
        columns.n_rows
    }

    open spec fn most_rows(response: Vec<Log>) -> nat {
        response@.len()
    }

    open spec fn has_parts(response: Vec<Log>, query: Query) -> bool {
        response_has_parts(views(response@), query)
    }

    open spec fn transformed(response: Vec<Log>, columns: WrapperColumns, query: Query) -> Result<
        WrapperColumns,
        Seq<char>,
    > {
        wrapper_transformed(views(response@), columns, query)
    }

    fn empty() -> (columns: Erc20WrapperEvents) {
        Erc20WrapperEvents::default()
    }

    fn transform(response: Vec<Log>, columns: &mut Erc20WrapperEvents, query: &Query) -> (done: R<
        (),
    >) {
        proof {
            lemma_kept_len(views(response@), |log: LogModel| gives_row(log));
        }
        transform_wrapper_events(&response, columns, query)
    }
}

impl Collect<ByTransaction> for Erc20WrapperEvents {
    type Response = Vec<Log>;

    open spec fn no_rows() -> WrapperColumns {
        no_wrapper_rows()
    }

    open spec fn row_count(columns: WrapperColumns) -> nat {
        columns.n_rows
    }

    open spec fn most_rows(response: Vec<Log>) -> nat {
        response@.len()
    }

    open spec fn has_parts(response: Vec<Log>, query: Query) -> bool {
        response_has_parts(views(response@), query)
    }

    open spec fn transformed(response: Vec<Log>, columns: WrapperColumns, query: Query) -> Result<
        WrapperColumns,
        Seq<char>,
    > {
        wrapper_transformed(views(response@), columns, query)
    }

    fn empty() -> (columns: Erc20WrapperEvents) {
        Erc20WrapperEvents::default()
    }

    fn transform(response: Vec<Log>, columns: &mut Erc20WrapperEvents, query: &Query) -> (done: R<
        (),
    >) {
        proof {
            lemma_kept_len(views(response@), |log: LogModel| gives_row(log));
        }
        transform_wrapper_events(&response, columns, query)
    }
}

impl CollectByTransaction for Erc20WrapperEvents {
    open spec fn collects_by_transaction() -> bool {
        true
    }

    fn can_collect_by_transaction() -> (can: bool)
        ensures
            can,
    {
        true
    }
}

} // verus!
