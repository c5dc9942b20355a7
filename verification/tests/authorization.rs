use julia_nft::address::Address;
use julia_nft::auth::{authorize, Operation};
use julia_nft::error::ERC721Error;
use julia_nft::ledger::Ledger;
use julia_nft::word::U256;

fn ledger_with_token() -> (Ledger, Address, U256) {
    let owner = Address::new(0, 1);
    let id = U256::from_u64(4);
    let mut ledger = Ledger::new();
    ledger.set_owner(id, owner);
    (ledger, owner, id)
}

#[test]
fn verdict_on_approve() {
    let (mut ledger, owner, id) = ledger_with_token();
    let (stranger, spender) = (Address::new(0, 2), Address::new(0, 3));
    let approve = Operation::Approve { token: id, spender };
    assert_eq!(authorize(&ledger, owner, approve), Ok(()));
    assert_eq!(authorize(&ledger, stranger, approve), Err(ERC721Error::NotOwner));
    ledger.set_operator_approval(owner, stranger, true);
    assert_eq!(authorize(&ledger, stranger, approve), Ok(()));
    // Being the approved spender gives no right to approve.
    ledger.set_approved(id, spender);
    assert_eq!(authorize(&ledger, spender, approve), Err(ERC721Error::NotOwner));
    let missing = Operation::Approve { token: U256::from_u64(5), spender };
    assert_eq!(authorize(&ledger, owner, missing), Err(ERC721Error::NotOwner));
}

#[test]
fn verdict_on_operator_approval() {
    let ledger = Ledger::new();
    let op = Operation::SetOperatorApproval { operator: Address::new(0, 9), approved: true };
    assert_eq!(authorize(&ledger, Address::new(0, 1), op), Ok(()));
    assert_eq!(authorize(&ledger, Address::zero_address(), op), Ok(()));
}

#[test]
fn verdict_on_transfer() {
    let (mut ledger, owner, id) = ledger_with_token();
    let (other, spender) = (Address::new(0, 2), Address::new(0, 3));
    let zero = Address::zero_address();
    let transfer = |from, to| Operation::Transfer { token: id, from, to };
    assert_eq!(authorize(&ledger, owner, transfer(owner, other)), Ok(()));
    assert_eq!(authorize(&ledger, owner, transfer(other, zero)), Err(ERC721Error::NotOwner));
    assert_eq!(authorize(&ledger, other, transfer(other, other)), Err(ERC721Error::NotOwner));
    assert_eq!(authorize(&ledger, other, transfer(owner, zero)), Err(ERC721Error::InvalidRecipient));
    assert_eq!(authorize(&ledger, owner, transfer(owner, zero)), Err(ERC721Error::InvalidRecipient));
    assert_eq!(authorize(&ledger, other, transfer(owner, other)), Err(ERC721Error::NotAuthorized));
    ledger.set_approved(id, spender);
    assert_eq!(authorize(&ledger, spender, transfer(owner, other)), Ok(()));
    assert_eq!(authorize(&ledger, other, transfer(owner, other)), Err(ERC721Error::NotAuthorized));
    ledger.set_operator_approval(owner, other, true);
    assert_eq!(authorize(&ledger, other, transfer(owner, spender)), Ok(()));
}

#[test]
fn verdict_on_mint_and_burn() {
    let (ledger, owner, id) = ledger_with_token();
    let other = Address::new(0, 2);
    let zero = Address::zero_address();
    let fresh = U256::from_u64(8);
    assert_eq!(authorize(&ledger, other, Operation::Mint { to: other, token: fresh }), Ok(()));
    assert_eq!(
        authorize(&ledger, other, Operation::Mint { to: other, token: id }),
        Err(ERC721Error::InvalidRecipient)
    );
    assert_eq!(
        authorize(&ledger, other, Operation::Mint { to: zero, token: fresh }),
        Err(ERC721Error::InvalidRecipient)
    );
    assert_eq!(authorize(&ledger, owner, Operation::Burn { owner, token: id }), Ok(()));
    assert_eq!(
        authorize(&ledger, owner, Operation::Burn { owner: other, token: id }),
        Err(ERC721Error::NotMinted)
    );
    assert_eq!(
        authorize(&ledger, owner, Operation::Burn { owner, token: fresh }),
        Err(ERC721Error::NotMinted)
    );
    assert_eq!(
        authorize(&ledger, zero, Operation::Burn { owner: zero, token: fresh }),
        Err(ERC721Error::NotMinted)
    );
}
