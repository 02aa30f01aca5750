//! Parameters of a single RPC call, and the log filter they describe.

use vstd::prelude::*;
use vstd::slice::slice_to_vec;

use crate::bytes::{option_view, views, Address, B256};
use crate::error::{err, list_view, result_view, CollectError, R};
use crate::filter::{Filter, FilterModel};
use crate::text::push_decimal;

verus! {

/// represents parameters for a single rpc call
#[derive(Debug, Clone)]
pub struct Params {
    /// block number
    pub block_number: Option<u64>,
    /// block range
    pub block_range: Option<(u64, u64)>,
    /// transaction
    pub transaction_hash: Option<Vec<u8>>,
    /// call data
    pub call_data: Option<Vec<u8>>,
    /// address
    pub address: Option<Vec<u8>>,
    /// contract
    pub contract: Option<Vec<u8>>,
    /// from address
    pub from_address: Option<Vec<u8>>,
    /// to address
    pub to_address: Option<Vec<u8>>,
    /// slot
    pub slot: Option<Vec<u8>>,
    /// topic0
    pub topic0: Option<Vec<u8>>,
    /// topic1
    pub topic1: Option<Vec<u8>>,
    /// topic2
    pub topic2: Option<Vec<u8>>,
    /// topic3
    pub topic3: Option<Vec<u8>>,
}

impl Default for Params {
    fn default() -> (params: Params)
        ensures
            params == (Params {
                block_number: None,
                block_range: None,
                transaction_hash: None,
                call_data: None,
                address: None,
                contract: None,
                from_address: None,
                to_address: None,
                slot: None,
                topic0: None,
                topic1: None,
                topic2: None,
                topic3: None,
            }),
    {
        Params {
            block_number: None,
            block_range: None,
            transaction_hash: None,
            call_data: None,
            address: None,
            contract: None,
            from_address: None,
            to_address: None,
            slot: None,
            topic0: None,
            topic1: None,
            topic2: None,
            topic3: None,
        }
    }
}

/// A value that has to be given: the value, or the error that reports its absence.
pub open spec fn present<T>(value: Option<T>, missing: Seq<char>) -> Result<T, Seq<char>> {
    match value {
        Some(value) => Ok(value),
        None => Err(missing),
    }
}

/// The message about a byte string that is not `width` bytes long.
pub open spec fn width_message(name: Seq<char>, width: nat, got: nat) -> Seq<char> {
    name + " must be "@ + crate::text::decimal(width) + " bytes, got "@ + crate::text::decimal(got)
}

/// A byte string as a word of `width` bytes, or the error about its width.
pub open spec fn fixed(bytes: Seq<u8>, width: nat, name: Seq<char>) -> Result<Seq<u8>, Seq<char>> {
    if bytes.len() == width {
        Ok(bytes)
    } else {
        Err(width_message(name, width, bytes.len()))
    }
}

/// A required byte string as a word of `width` bytes.
pub open spec fn required_word(
    bytes: Option<Seq<u8>>,
    missing: Seq<char>,
    width: nat,
    name: Seq<char>,
) -> Result<Seq<u8>, Seq<char>> {
    match bytes {
        Some(bytes) => fixed(bytes, width, name),
        None => Err(missing),
    }
}

/// The words that an optional byte string allows at one place of a filter:
/// none listed when it is absent, else the one word it holds.
pub open spec fn allowed_words(bytes: Option<Seq<u8>>, width: nat, name: Seq<char>) -> Result<
    Seq<Seq<u8>>,
    Seq<char>,
> {
    match bytes {
        None => Ok(Seq::empty()),
        Some(bytes) => match fixed(bytes, width, name) {
            Ok(word) => Ok(seq![word]),
            Err(message) => Err(message),
        },
    }
}

/// The log filter that `params` describe, or the first thing wrong with them.
pub open spec fn log_filter(params: Params) -> Result<FilterModel, Seq<char>> {
    match params.block_range {
        None => Err("block_range not specified"@),
        Some(range) => match allowed_words(option_view(params.address), 20, "address"@) {
            Err(message) => Err(message),
            Ok(address) => match allowed_words(option_view(params.topic0), 32, "topic0"@) {
                Err(message) => Err(message),
                Ok(topic0) => match allowed_words(option_view(params.topic1), 32, "topic1"@) {
                    Err(message) => Err(message),
                    Ok(topic1) => match allowed_words(option_view(params.topic2), 32, "topic2"@) {
                        Err(message) => Err(message),
                        Ok(topic2) => match allowed_words(
                            option_view(params.topic3),
                            32,
                            "topic3"@,
                        ) {
                            Err(message) => Err(message),
                            Ok(topic3) => Ok(
                                FilterModel {
                                    from_block: range.0,
                                    to_block: range.1,
                                    address,
                                    topics: seq![topic0, topic1, topic2, topic3],
                                },
                            ),
                        },
                    },
                },
            },
        },
    }
}

/// `FixedBytes::<N>::try_from(&[u8])` of alloy: succeeds exactly on slices of
/// `N` bytes, and then holds those bytes.
#[verifier::external_body]
fn fixed_bytes<const N: usize>(bytes: &[u8]) -> (word: Option<[u8; N]>)
    ensures
        word is Some <==> bytes@.len() == N,
        word matches Some(w) ==> w@ == bytes@,
{
    alloy::primitives::FixedBytes::<N>::try_from(bytes).ok().map(|word| word.0)
}

/// Convert user-supplied bytes into a fixed-width word, or error.
///
/// The bytes arrive straight from the command line, which decodes them without
/// a length check, so a malformed argument must be a clean error.
pub fn fixed_from_slice<const N: usize>(bytes: &[u8], name: &str) -> (word: R<[u8; N]>)
    ensures
        result_view(word) == fixed(bytes@, N as nat, name@),
{
    match fixed_bytes::<N>(bytes) {
        Some(word) => Ok(word),
        None => {
            let mut message: String = String::new();
            message.append(name);
            message.append(" must be ");
            push_decimal(&mut message, N as u64);
            message.append(" bytes, got ");
            push_decimal(&mut message, bytes.len() as u64);
            assert(message@ =~= width_message(name@, N as nat, bytes@.len()));
            Err(CollectError::CollectError(message))
        },
    }
}

/// A copy of a byte string that has to be given.
fn required(bytes: &Option<Vec<u8>>, missing: &str) -> (copy: R<Vec<u8>>)
    ensures
        result_view(copy) == present(option_view(*bytes), missing@),
{
    match bytes {
        Some(value) => Ok(slice_to_vec(value.as_slice())),
        None => Err(err(missing)),
    }
}

/// The one word that an optional byte string allows, if it is given.
pub(crate) fn allowed<const N: usize>(bytes: &Option<Vec<u8>>, name: &str) -> (words: R<
    Vec<[u8; N]>,
>)
    ensures
        list_view(words) == allowed_words(option_view(*bytes), N as nat, name@),
{
    let mut words: Vec<[u8; N]> = Vec::new();
    if let Some(value) = bytes {
        let word = fixed_from_slice::<N>(value.as_slice(), name)?;
        words.push(word);
        assert(views(words@) =~= seq![word@]);
    } else {
        assert(views(words@) =~= Seq::empty());
    }
    Ok(words)
}

impl Params {
    /// block number
    pub fn block_number(&self) -> (number: R<u64>)
        ensures
            result_view(number) == present(self.block_number, "block_number not specified"@),
    {
        match self.block_number {
            Some(number) => Ok(number),
            None => Err(err("block_number not specified")),
        }
    }

    /// block range
    pub fn block_range(&self) -> (range: R<(u64, u64)>)
        ensures
            result_view(range) == present(self.block_range, "block_range not specified"@),
    {
        match self.block_range {
            Some(range) => Ok(range),
            None => Err(err("block_range not specified")),
        }
    }

    /// transaction
    pub fn transaction_hash(&self) -> (value: R<Vec<u8>>)
        ensures
            result_view(value) == present(
                option_view(self.transaction_hash),
                "transaction not specified"@,
            ),
    {
        required(&self.transaction_hash, "transaction not specified")
    }

    /// address
    pub fn address(&self) -> (value: R<Vec<u8>>)
        ensures
            result_view(value) == present(option_view(self.address), "address not specified"@),
    {
        required(&self.address, "address not specified")
    }

    /// contract
    pub fn contract(&self) -> (value: R<Vec<u8>>)
        ensures
            result_view(value) == present(option_view(self.contract), "contract not specified"@),
    {
        required(&self.contract, "contract not specified")
    }

    /// slot
    pub fn slot(&self) -> (value: R<Vec<u8>>)
        ensures
            result_view(value) == present(option_view(self.slot), "slot not specified"@),
    {
        required(&self.slot, "slot not specified")
    }

    /// call_data
    pub fn call_data(&self) -> (value: R<Vec<u8>>)
        ensures
            result_view(value) == present(option_view(self.call_data), "call_data not specified"@),
    {
        required(&self.call_data, "call_data not specified")
    }

    /// ethers block number
    pub fn ethers_block_number(&self) -> (number: R<u64>)
        ensures
            result_view(number) == present(self.block_number, "block_number not specified"@),
    {
        self.block_number()
    }

    /// ethers transaction
    ///
    /// Errors if `transaction_hash` is unset, or is not exactly 32 bytes.
    pub fn ethers_transaction_hash(&self) -> (word: R<B256>)
        ensures
            result_view(word) == required_word(
                option_view(self.transaction_hash),
                "transaction not specified"@,
                32,
                "transaction_hash"@,
            ),
    {
        let bytes = self.transaction_hash()?;
        fixed_from_slice::<32>(bytes.as_slice(), "transaction_hash")
    }

    /// ethers address
    ///
    /// Errors if `address` is unset, or is not exactly 20 bytes.
    pub fn ethers_address(&self) -> (word: R<Address>)
        ensures
            result_view(word) == required_word(
                option_view(self.address),
                "address not specified"@,
                20,
                "address"@,
            ),
    {
        let bytes = self.address()?;
        fixed_from_slice::<20>(bytes.as_slice(), "address")
    }

    /// ethers contract
    ///
    /// Errors if `contract` is unset, or is not exactly 20 bytes.
    pub fn ethers_contract(&self) -> (word: R<Address>)
        ensures
            result_view(word) == required_word(
                option_view(self.contract),
                "contract not specified"@,
                20,
                "contract"@,
            ),
    {
        let bytes = self.contract()?;
        fixed_from_slice::<20>(bytes.as_slice(), "contract")
    }

    /// log filter
    ///
    /// Errors if the block range is unset, or if `address` / `topic0..3` are
    /// present but not the exact byte width of their type. These bytes come
    /// straight from the command line, which decodes them without a length
    /// check, so the width is validated here.
    pub fn ethers_log_filter(&self) -> (filter: R<Filter>)
        ensures
            result_view(filter) == log_filter(*self),
    {
        let (from_block, to_block) = self.block_range()?;
        let address = allowed::<20>(&self.address, "address")?;
        let topic0 = allowed::<32>(&self.topic0, "topic0")?;
        let topic1 = allowed::<32>(&self.topic1, "topic1")?;
        let topic2 = allowed::<32>(&self.topic2, "topic2")?;
        let topic3 = allowed::<32>(&self.topic3, "topic3")?;
        Ok(Filter { from_block, to_block, address, topics: [topic0, topic1, topic2, topic3] })
    }
}

} // verus!
