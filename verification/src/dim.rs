//! Dimensions along which a query can be narrowed.

use vstd::prelude::*;

verus! {

/// Dimension of a query
#[derive(Debug, Clone, Copy, PartialEq, Eq, Hash, Structural)]
pub enum Dim {
    /// block number
    BlockNumber,
    /// block range
    BlockRange,
    /// transaction hash
    TransactionHash,
    /// call data
    CallData,
    /// address
    Address,
    /// contract
    Contract,
    /// from address
    FromAddress,
    /// to address
    ToAddress,
    /// slot
    Slot,
    /// topic0
    Topic0,
    /// topic1
    Topic1,
    /// topic2
    Topic2,
    /// topic3
    Topic3,
}

} // verus!
