//! 256-bit amounts.

use vstd::prelude::*;

use crate::bytes::be_value;

verus! {

/// A 256-bit unsigned integer.
#[derive(Debug, Clone, Copy)]
pub struct U256 {
    /// 64-bit digits, least significant first
    pub limbs: [u64; 4],
}

/// The number that four 64-bit digits write, least significant first.
pub open spec fn limbs_value(limbs: Seq<u64>) -> nat {
    limbs[0] as nat + 0x1_0000_0000_0000_0000 * (limbs[1] as nat + 0x1_0000_0000_0000_0000 * (
    limbs[2] as nat + 0x1_0000_0000_0000_0000 * limbs[3] as nat))
}

impl View for U256 {
    type V = nat;

    /// An amount is modelled by its number.
    open spec fn view(&self) -> nat {
        limbs_value(self.limbs@)
    }
}

impl U256 {
    /// `U256::from_be_slice` of alloy: the number that at most 32 bytes write,
    /// most significant first. It panics on longer slices.
    #[verifier::external_body]
    pub(crate) fn from_be_slice(bytes: &[u8]) -> (amount: U256)
        requires
            bytes@.len() <= 32,
        ensures
            amount@ == be_value(bytes@),
    {
        U256 { limbs: alloy::primitives::U256::from_be_slice(bytes).into_limbs() }
    }
}

} // verus!
