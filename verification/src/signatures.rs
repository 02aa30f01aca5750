//! Event signature hashes and function selectors.

use vstd::prelude::*;

use crate::bytes::B256;

verus! {

/// hash of `Transfer(address,address,uint256)`, shared by ERC-20 and ERC-721
pub const TRANSFER_SIGNATURE_HASH: B256 = [
    0xdd, 0xf2, 0x52, 0xad, 0x1b, 0xe2, 0xc8, 0x9b, 0x69, 0xc2, 0xb0, 0x68, 0xfc, 0x37, 0x8d, 0xaa,
    0x95, 0x2b, 0xa7, 0xf1, 0x63, 0xc4, 0xa1, 0x16, 0x28, 0xf5, 0x5a, 0x4d, 0xf5, 0x23, 0xb3, 0xef,
];

/// hash of `Approval(address,address,uint256)`
pub const APPROVAL_SIGNATURE_HASH: B256 = [
    0x8c, 0x5b, 0xe1, 0xe5, 0xeb, 0xec, 0x7d, 0x5b, 0xd1, 0x4f, 0x71, 0x42, 0x7d, 0x1e, 0x84, 0xf3,
    0xdd, 0x03, 0x14, 0xc0, 0xf7, 0xb2, 0x29, 0x1e, 0x5b, 0x20, 0x0a, 0xc8, 0xc7, 0xc3, 0xb9, 0x25,
];

/// hash of `Deposit(address,uint256)`: depositing the underlying mints the
/// wrapped token
pub const DEPOSIT_SIGNATURE_HASH: B256 = [
    0xe1, 0xff, 0xfc, 0xc4, 0x92, 0x3d, 0x04, 0xb5, 0x59, 0xf4, 0xd2, 0x9a, 0x8b, 0xfc, 0x6c, 0xda,
    0x04, 0xeb, 0x5b, 0x0d, 0x3c, 0x46, 0x07, 0x51, 0xc2, 0x40, 0x2c, 0x5c, 0x5c, 0xc9, 0x10, 0x9c,
];

/// hash of `Withdrawal(address,uint256)`: redeeming the wrapped token for the
/// underlying burns it
pub const WITHDRAWAL_SIGNATURE_HASH: B256 = [
    0x7f, 0xcf, 0x53, 0x2c, 0x15, 0xf0, 0xa6, 0xdb, 0x0b, 0xd6, 0xd0, 0xe0, 0x38, 0xbe, 0xa7, 0x1d,
    0x30, 0xd8, 0x08, 0xc7, 0xd9, 0x8c, 0xb3, 0xbf, 0x72, 0x68, 0xa9, 0x5b, 0xf5, 0x08, 0x1b, 0x65,
];

/// selector of `totalSupply()`
pub const TOTAL_SUPPLY_SELECTOR: [u8; 4] = [0x18, 0x16, 0x0d, 0xdd];

/// selector of `aggregate3((address,bool,bytes)[])`
pub const AGGREGATE3_SELECTOR: [u8; 4] = [0x82, 0xad, 0x56, 0xcb];

/// The four signature hashes differ, already in their first byte.
pub proof fn lemma_signatures_differ()
    ensures
        TRANSFER_SIGNATURE_HASH@ != APPROVAL_SIGNATURE_HASH@,
        TRANSFER_SIGNATURE_HASH@ != DEPOSIT_SIGNATURE_HASH@,
        TRANSFER_SIGNATURE_HASH@ != WITHDRAWAL_SIGNATURE_HASH@,
        APPROVAL_SIGNATURE_HASH@ != DEPOSIT_SIGNATURE_HASH@,
        APPROVAL_SIGNATURE_HASH@ != WITHDRAWAL_SIGNATURE_HASH@,
        DEPOSIT_SIGNATURE_HASH@ != WITHDRAWAL_SIGNATURE_HASH@,
{
    assert(TRANSFER_SIGNATURE_HASH@[0] == 0xdd);
    assert(APPROVAL_SIGNATURE_HASH@[0] == 0x8c);
    assert(DEPOSIT_SIGNATURE_HASH@[0] == 0xe1);
    assert(WITHDRAWAL_SIGNATURE_HASH@[0] == 0x7f);
}

} // verus!
