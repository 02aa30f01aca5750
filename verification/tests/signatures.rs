use alloy::primitives::keccak256;
use triodion::signatures::{
    AGGREGATE3_SELECTOR, APPROVAL_SIGNATURE_HASH, DEPOSIT_SIGNATURE_HASH, TOTAL_SUPPLY_SELECTOR,
    TRANSFER_SIGNATURE_HASH, WITHDRAWAL_SIGNATURE_HASH,
};

#[test]
fn hashes_are_those_of_the_signatures() {
    assert_eq!(keccak256("Transfer(address,address,uint256)").0, TRANSFER_SIGNATURE_HASH);
    assert_eq!(keccak256("Approval(address,address,uint256)").0, APPROVAL_SIGNATURE_HASH);
    assert_eq!(keccak256("Deposit(address,uint256)").0, DEPOSIT_SIGNATURE_HASH);
    assert_eq!(keccak256("Withdrawal(address,uint256)").0, WITHDRAWAL_SIGNATURE_HASH);
}

#[test]
fn selectors_are_those_of_the_functions() {
    assert_eq!(keccak256("totalSupply()")[..4], TOTAL_SUPPLY_SELECTOR);
    assert_eq!(keccak256("aggregate3((address,bool,bytes)[])")[..4], AGGREGATE3_SELECTOR);
}
