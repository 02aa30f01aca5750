//! Verified core of the triodion extractor.

pub mod batch_run;
pub mod bytes;
pub mod call_laws;
pub mod call_plan;
pub mod collection;
pub mod datatypes;
pub mod dim;
pub mod erc20_supplies;
pub mod erc20_wrapper_events;
pub mod error;
pub mod eth_calls;
pub mod filter;
pub mod hash;
pub mod log;
pub mod log_events;
pub mod multicall;
pub mod row_laws;
pub mod rpc_params;
pub mod schema;
pub mod selection_laws;
pub mod seqs;
pub mod signatures;
pub mod text;
pub mod u256;
pub mod value_laws;
