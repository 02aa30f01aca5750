//! Logs as the RPC returns them, and the shapes of the events in them.

use vstd::prelude::*;
use vstd::slice::slice_to_vec;

use crate::bytes::{bytes_eq, option_view, views, Address, B256};
use crate::seqs::lemma_filter_push;
use crate::signatures::{
    APPROVAL_SIGNATURE_HASH, DEPOSIT_SIGNATURE_HASH, TRANSFER_SIGNATURE_HASH,
    WITHDRAWAL_SIGNATURE_HASH,
};

verus! {

/// A log with its position in the chain.
#[derive(Debug)]
pub struct Log {
    /// emitting contract
    pub address: Address,
    /// topics
    pub topics: Vec<B256>,
    /// data
    pub data: Vec<u8>,
    /// block hash
    pub block_hash: Option<B256>,
    /// block number
    pub block_number: Option<u64>,
    /// transaction hash
    pub transaction_hash: Option<B256>,
    /// transaction index
    pub transaction_index: Option<u64>,
    /// log index
    pub log_index: Option<u64>,
}

/// The model of a log.
pub struct LogModel {
    pub address: Seq<u8>,
    pub topics: Seq<Seq<u8>>,
    pub data: Seq<u8>,
    pub block_hash: Option<Seq<u8>>,
    pub block_number: Option<u64>,
    pub transaction_hash: Option<Seq<u8>>,
    pub transaction_index: Option<u64>,
    pub log_index: Option<u64>,
}

impl View for Log {
    type V = LogModel;

    open spec fn view(&self) -> LogModel {
        LogModel {
            address: self.address@,
            topics: views(self.topics@),
            data: self.data@,
            block_hash: option_view(self.block_hash),
            block_number: self.block_number,
            transaction_hash: option_view(self.transaction_hash),
            transaction_index: self.transaction_index,
            log_index: self.log_index,
        }
    }
}

impl Clone for Log {
    fn clone(&self) -> (copy: Log)
        ensures
            copy@ == self@,
    {
        Log {
            address: self.address,
            topics: slice_to_vec(self.topics.as_slice()),
            data: slice_to_vec(self.data.as_slice()),
            block_hash: self.block_hash,
            block_number: self.block_number,
            transaction_hash: self.transaction_hash,
            transaction_index: self.transaction_index,
            log_index: self.log_index,
        }
    }
}

/// Whether `word` is the topic of the log at `position`.
pub open spec fn has_topic(log: LogModel, position: int, word: Seq<u8>) -> bool {
    position < log.topics.len() && log.topics[position] == word
}

/// Whether the log has `topics` topics and `data` bytes of data.
pub open spec fn has_shape(log: LogModel, topics: nat, data: nat) -> bool {
    log.topics.len() == topics && log.data.len() == data
}

/// An ERC-20 transfer: two indexed accounts, and the amount as data.
pub open spec fn erc20_transfer(log: LogModel) -> bool {
    has_shape(log, 3, 32) && has_topic(log, 0, TRANSFER_SIGNATURE_HASH@)
}

/// An ERC-20 approval: two indexed accounts, and the amount as data.
pub open spec fn erc20_approval(log: LogModel) -> bool {
    has_shape(log, 3, 32) && has_topic(log, 0, APPROVAL_SIGNATURE_HASH@)
}

/// An ERC-721 transfer: two indexed accounts and an indexed token, no data.
pub open spec fn erc721_transfer(log: LogModel) -> bool {
    has_shape(log, 4, 0) && has_topic(log, 0, TRANSFER_SIGNATURE_HASH@)
}

/// A deposit or a withdrawal: one indexed account, and the amount as data.
pub open spec fn wrapper_event(log: LogModel) -> bool {
    has_shape(log, 2, 32) && (has_topic(log, 0, DEPOSIT_SIGNATURE_HASH@) || has_topic(
        log,
        0,
        WITHDRAWAL_SIGNATURE_HASH@,
    ))
}

impl Log {
    /// Whether `word` is the topic of the log at `position`.
    pub fn topic_is(&self, position: usize, word: &[u8]) -> (is: bool)
        ensures
            is == has_topic(self@, position as int, word@),
    {
        position < self.topics.len() && bytes_eq(&self.topics[position], word)
    }
}

/// Copies of the logs that are kept, in order.
pub(crate) fn select_logs<F: Fn(&Log) -> bool>(
    logs: &Vec<Log>,
    keep: F,
    Ghost(kept): Ghost<spec_fn(LogModel) -> bool>,
) -> (rows: Vec<Log>)
    requires
        forall|log: &Log| #[trigger] call_requires(keep, (log,)),
        forall|log: &Log, answer: bool| #[trigger]
            call_ensures(keep, (log,), answer) ==> answer == kept(log@),
    ensures
        views(rows@) == views(logs@).filter(kept),
{
    let mut rows: Vec<Log> = Vec::new();
    let ghost models = views(logs@);
    let mut i: usize = 0;
    proof {
        reveal(Seq::filter);
        assert(views(rows@) =~= models.take(0).filter(kept));
    }
    while i < logs.len()
        invariant
            i <= logs@.len(),
            models == views(logs@),
            forall|log: &Log| #[trigger] call_requires(keep, (log,)),
            forall|log: &Log, answer: bool| #[trigger]
                call_ensures(keep, (log,), answer) ==> answer == kept(log@),
            views(rows@) == models.take(i as int).filter(kept),
        decreases logs@.len() - i,
    {
        let log = &logs[i];
        proof {
            assert(models.take(i as int + 1) =~= models.take(i as int).push(log@));
            lemma_filter_push(models.take(i as int), log@, kept);
        }
        if keep(log) {
            let ghost before = rows@;
            let copy = log.clone();
            rows.push(copy);
            assert(views(rows@) =~= views(before).push(copy@));
        }
        i += 1;
    }
    assert(models.take(logs@.len() as int) =~= models);
    rows
}

/// Whether the log is an ERC-20 transfer.
pub fn is_erc20_transfer(log: &Log) -> (is: bool)
    ensures
        is == erc20_transfer(log@),
{
    log.topics.len() == 3 && log.data.len() == 32 && log.topic_is(0, &TRANSFER_SIGNATURE_HASH)
}

/// Whether the log is an ERC-20 approval.
pub fn is_erc20_approval(log: &Log) -> (is: bool)
    ensures
        is == erc20_approval(log@),
{
    log.topics.len() == 3 && log.data.len() == 32 && log.topic_is(0, &APPROVAL_SIGNATURE_HASH)
}

/// Whether the log is an ERC-721 transfer.
pub fn is_erc721_transfer(log: &Log) -> (is: bool)
    ensures
        is == erc721_transfer(log@),
{
    log.topics.len() == 4 && log.data.len() == 0 && log.topic_is(0, &TRANSFER_SIGNATURE_HASH)
}

/// Whether the log has the topic count and data length of a deposit or a
/// withdrawal.
pub fn is_wrapper_event_shape(log: &Log) -> (is: bool)
    ensures
        is == has_shape(log@, 2, 32),
{
    log.topics.len() == 2 && log.data.len() == 32
}

/// Whether the log is a deposit or a withdrawal.
pub fn is_wrapper_event(log: &Log) -> (is: bool)
    ensures
        is == wrapper_event(log@),
{
    is_wrapper_event_shape(log) && (log.topic_is(0, &DEPOSIT_SIGNATURE_HASH) || log.topic_is(
        0,
        &WITHDRAWAL_SIGNATURE_HASH,
    ))
}

/// ERC-20 and ERC-721 transfers share their signature hash, and no log is both:
/// the number of topics tells them apart.
pub proof fn law_transfer_shapes_are_disjoint(log: LogModel)
    ensures
        !(erc20_transfer(log) && erc721_transfer(log)),
        erc20_transfer(log) ==> has_topic(log, 0, TRANSFER_SIGNATURE_HASH@),
        erc721_transfer(log) ==> has_topic(log, 0, TRANSFER_SIGNATURE_HASH@),
{
}

} // verus!
