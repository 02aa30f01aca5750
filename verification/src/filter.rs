//! The filter of a log request, and the logs it admits.

use vstd::prelude::*;

use crate::bytes::{views, Address, B256};
use crate::log::LogModel;

verus! {

/// Filter of a log request.
///
/// An empty list puts no constraint on its position; otherwise the log must
/// carry one of the listed values there.
#[derive(Debug)]
pub struct Filter {
    /// first block of the range
    pub from_block: u64,
    /// last block of the range
    pub to_block: u64,
    /// emitting contracts
    pub address: Vec<Address>,
    /// allowed topics, by topic position
    pub topics: [Vec<B256>; 4],
}

/// The model of a filter.
pub struct FilterModel {
    pub from_block: u64,
    pub to_block: u64,
    pub address: Seq<Seq<u8>>,
    pub topics: Seq<Seq<Seq<u8>>>,
}

/// The model of the four topic positions.
pub open spec fn topics_model(topics: [Vec<B256>; 4]) -> Seq<Seq<Seq<u8>>> {
    seq![
        views(topics@[0]@),
        views(topics@[1]@),
        views(topics@[2]@),
        views(topics@[3]@),
    ]
}

impl View for Filter {
    type V = FilterModel;

    open spec fn view(&self) -> FilterModel {
        FilterModel {
            from_block: self.from_block,
            to_block: self.to_block,
            address: views(self.address@),
            topics: topics_model(self.topics),
        }
    }
}

/// Whether a list of words allows a value: an empty list allows every value.
pub open spec fn list_allows(words: Seq<Seq<u8>>, value: Option<Seq<u8>>) -> bool {
    words.len() == 0 || (value matches Some(word) && words.contains(word))
}

/// The topic of a log at a position, if it has one there.
pub open spec fn topic_at(log: LogModel, position: int) -> Option<Seq<u8>> {
    if position < log.topics.len() {
        Some(log.topics[position])
    } else {
        None
    }
}

/// Whether a log request with this filter returns the log: it lies in the block
/// range, and the emitting contract and each of the four topic positions are
/// allowed by their lists.
pub open spec fn admits(filter: FilterModel, log: LogModel) -> bool {
    &&& log.block_number matches Some(number)
    &&& filter.from_block <= number <= filter.to_block
    &&& list_allows(filter.address, Some(log.address))
    &&& list_allows(filter.topics[0], topic_at(log, 0))
    &&& list_allows(filter.topics[1], topic_at(log, 1))
    &&& list_allows(filter.topics[2], topic_at(log, 2))
    &&& list_allows(filter.topics[3], topic_at(log, 3))
}

} // verus!
