//! Multicall3 helpers for batching `eth_call` invocations.
//!
//! [Multicall3](https://www.multicall3.com) is a thin aggregator contract:
//! given a list of `(target, allowFailure, callData)` triples, `aggregate3`
//! returns a parallel list of `(success, returnData)` results in one round-trip.

use alloy::sol_types::{sol_data, SolType};
use vstd::prelude::*;
use vstd::slice::slice_to_vec;

use crate::bytes::{views, Address};
use crate::error::{CollectError, R};
use crate::signatures::AGGREGATE3_SELECTOR;

verus! {

/// Canonical Multicall3 deploy address (same on every supported chain).
pub const MULTICALL3_ADDRESS: Address = [
    0xca, 0x11, 0xbd, 0xe0, 0x59, 0x77, 0xb3, 0x63, 0x11, 0x67, 0x02, 0x88, 0x62, 0xbe, 0x2a, 0x17,
    0x39, 0x76, 0xca, 0x11,
];

/// Default batch size used when the caller doesn't specify one.
///
/// At about 50k gas per inner call this stays under a 30M-gas block limit.
pub const DEFAULT_MULTICALL_BATCH_SIZE: u32 = 150;

/// The block at which Multicall3 was deployed, on the verified chains.
pub open spec fn deploy_block(chain_id: u64) -> Option<u64> {
    match chain_id {
        1 => Some(14_353_601),
        10 => Some(4_286_263),
        56 => Some(15_921_452),
        100 => Some(21_022_491),
        137 => Some(25_770_160),
        8_453 => Some(5_022),
        42_161 => Some(7_654_707),
        43_114 => Some(11_907_934),
        _ => None,
    }
}

/// Block at which Multicall3 was first deployed on a given chain.
///
/// Returns `None` for chains that are not verified: callers treat an unknown
/// chain as one without Multicall3 and fall back to per-call extraction.
pub fn multicall3_deploy_block(chain_id: u64) -> (block: Option<u64>)
    ensures
        block == deploy_block(chain_id),
{
    match chain_id {
        1 => Some(14_353_601),  // Ethereum mainnet
        10 => Some(4_286_263),  // Optimism
        56 => Some(15_921_452),  // BNB Chain
        100 => Some(21_022_491),  // Gnosis
        137 => Some(25_770_160),  // Polygon
        8_453 => Some(5_022),  // Base
        42_161 => Some(7_654_707),  // Arbitrum One
        43_114 => Some(11_907_934),  // Avalanche C-Chain
        _ => None,
    }
}

/// One call of a batch.
#[derive(Debug)]
pub struct Call3 {
    /// called contract
    pub target: Address,
    /// whether the call may revert without failing the batch
    pub allow_failure: bool,
    /// call data
    pub call_data: Vec<u8>,
}

impl View for Call3 {
    type V = (Seq<u8>, bool, Seq<u8>);

    /// A call is modelled by its target, whether it may fail, and its data.
    open spec fn view(&self) -> (Seq<u8>, bool, Seq<u8>) {
        (self.target@, self.allow_failure, self.call_data@)
    }
}

/// Outcome of one call of a batch.
#[derive(Debug)]
pub struct CallResult {
    /// whether the call succeeded
    pub success: bool,
    /// returned data
    pub return_data: Vec<u8>,
}

impl View for CallResult {
    type V = (bool, Seq<u8>);

    /// An outcome is modelled by whether it succeeded and its data.
    open spec fn view(&self) -> (bool, Seq<u8>) {
        (self.success, self.return_data@)
    }
}

/// The ABI encoding of the arguments of `aggregate3`.
pub uninterp spec fn aggregate3_arguments(calls: Seq<(Seq<u8>, bool, Seq<u8>)>) -> Seq<u8>;

/// The outcomes that ABI-encoded return data of `aggregate3` hold, where they decode.
pub uninterp spec fn aggregate3_outcomes(data: Seq<u8>) -> Seq<(bool, Seq<u8>)>;

/// Error of the ABI decoder.
#[verifier::external_type_specification]
#[verifier::external_body]
pub struct ExAbiError(alloy::sol_types::Error);

/// `SolType::abi_encode_sequence` of alloy, on the one argument of `aggregate3`:
/// a function of the calls alone, named `aggregate3_arguments` here. How the ABI
/// lays the calls out is left to the name.
#[verifier::external_body]
fn encode_arguments(calls: &Vec<Call3>) -> (data: Vec<u8>)
    ensures
        data@ == aggregate3_arguments(views(calls@)),
{
    let calls: Vec<(alloy::primitives::Address, bool, alloy::primitives::Bytes)> = calls.iter().map(
        |call| (call.target.into(), call.allow_failure, call.call_data.clone().into()),
    ).collect();
    <(sol_data::Array<
        (sol_data::Address, sol_data::Bool, sol_data::Bytes),
    >,) as SolType>::abi_encode_sequence(&(calls,))
}

/// `SolType::abi_decode_sequence` of alloy, on the return data of `aggregate3`:
/// where it succeeds, the outcomes are a function of the data alone, named
/// `aggregate3_outcomes` here. Whether it succeeds is left open, since it also
/// depends on the memory that the decoder can reserve.
#[verifier::external_body]
fn decode_outcomes(data: &[u8]) -> (outcomes: Result<Vec<CallResult>, alloy::sol_types::Error>)
    ensures
        outcomes matches Ok(outcomes) ==> views(outcomes@) == aggregate3_outcomes(data@),
{
    <(sol_data::Array<(sol_data::Bool, sol_data::Bytes)>,) as SolType>::abi_decode_sequence(
        data,
    ).map(
        |(outcomes,)|
            outcomes.into_iter().map(
                |(success, data)| CallResult { success, return_data: data.to_vec() },
            ).collect(),
    )
}

/// The `Debug` text of the ABI decoder's error. Nothing is claimed of it.
#[verifier::external_body]
fn abi_error_text(error: &alloy::sol_types::Error) -> (text: String) {
    format!("{:?}", error)
}

/// Call data: the selector of a function, then its encoded arguments.
pub fn with_selector(selector: &[u8; 4], arguments: Vec<u8>) -> (data: Vec<u8>)
    ensures
        data@ == selector@ + arguments@,
{
    let mut arguments = arguments;
    let mut data = slice_to_vec(selector);
    data.append(&mut arguments);
    data
}

/// Call data of `aggregate3` for a batch of calls.
pub fn aggregate3_call_data(calls: &Vec<Call3>) -> (data: Vec<u8>)
    ensures
        data@ == AGGREGATE3_SELECTOR@ + aggregate3_arguments(views(calls@)),
{
    with_selector(&AGGREGATE3_SELECTOR, encode_arguments(calls))
}

/// The decoded outcomes, or the error that reports why they did not decode.
pub fn outcomes_or_error(decoded: Result<Vec<CallResult>, alloy::sol_types::Error>) -> (outcomes: R<
    Vec<CallResult>,
>)
    ensures
        match decoded {
            Ok(decoded) => outcomes == Ok::<Vec<CallResult>, CollectError>(decoded),
            Err(_) => outcomes matches Err(error) && "multicall decode failed: "@.is_prefix_of(
                error@,
            ),
        },
{
    match decoded {
        Ok(outcomes) => Ok(outcomes),
        Err(error) => {
            let mut message: String = String::new();
            message.append("multicall decode failed: ");
            assert(message@ =~= "multicall decode failed: "@);
            message.append(abi_error_text(&error).as_str());
            Err(CollectError::CollectError(message))
        },
    }
}

/// Outcomes of a batch from the return data of `aggregate3`.
///
/// Fails where the data do not decode, with the decoder's reason.
pub fn aggregate3_returns(data: &[u8]) -> (outcomes: R<Vec<CallResult>>)
    ensures
        match outcomes {
            Ok(outcomes) => views(outcomes@) == aggregate3_outcomes(data@),
            Err(error) => "multicall decode failed: "@.is_prefix_of(error@),
        },
{
    outcomes_or_error(decode_outcomes(data))
}

} // verus!
