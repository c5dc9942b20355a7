use julia_nft::address::Address;
use julia_nft::auth::Operation;
use julia_nft::address::Grant;
use julia_nft::erc721::{declares_interface, ERC721Params, ERC721};
use julia_nft::footprint::{footprint, footprint_of_token};
use julia_nft::error::ERC721Error;
use julia_nft::julia::{issue, render_request_on, token_uri_on, MetadataError};
use julia_nft::art::{PackageError, RenderRequest};
use julia_nft::ledger::Ledger;
use julia_nft::protocol::{perform, room_for, Event};
use julia_nft::word::U256;

fn account(n: u128) -> Address {
    Address::new(3, n)
}

fn top() -> U256 {
    U256::new(u128::MAX, u128::MAX)
}

#[test]
fn perform_changes_the_ledger_in_step() {
    let (a, b) = (account(1), account(2));
    let zero = Address::zero_address();
    let id = U256::from_u64(40);
    let mut ledger = Ledger::new();

    assert_eq!(
        perform(&mut ledger, a, Operation::Mint { to: a, token: id }),
        Ok(Event::Transfer { from: zero, to: a, id })
    );
    assert_eq!(ledger.recorded_owner(id), a);
    assert_eq!(ledger.balance_of(a), U256::from_u64(1));

    assert_eq!(
        perform(&mut ledger, a, Operation::Approve { token: id, spender: b }),
        Ok(Event::Approval { owner: a, spender: b, id })
    );
    assert_eq!(ledger.approved_spender(id), b);

    assert_eq!(
        perform(&mut ledger, b, Operation::Transfer { token: id, from: a, to: b }),
        Ok(Event::Transfer { from: a, to: b, id })
    );
    assert_eq!(ledger.recorded_owner(id), b);
    assert_eq!(ledger.approved_spender(id), zero);
    assert_eq!(ledger.balance_of(a), U256::zero());
    assert_eq!(ledger.balance_of(b), U256::from_u64(1));

    assert_eq!(
        perform(&mut ledger, a, Operation::SetOperatorApproval { operator: b, approved: true }),
        Ok(Event::ApprovalForAll { owner: a, operator: b, approved: true })
    );
    assert!(ledger.is_approved_for_all(a, b));

    assert_eq!(
        perform(&mut ledger, b, Operation::Burn { owner: b, token: id }),
        Ok(Event::Transfer { from: b, to: zero, id })
    );
    assert_eq!(ledger.recorded_owner(id), zero);
    assert_eq!(ledger.balance_of(b), U256::zero());
    assert!(ledger.is_approved_for_all(a, b));
}

#[test]
fn refused_operation_leaves_the_ledger() {
    let (a, b) = (account(1), account(2));
    let id = U256::from_u64(1);
    let mut ledger = Ledger::new();
    perform(&mut ledger, a, Operation::Mint { to: a, token: id }).unwrap();
    ledger.set_approved(id, b);
    assert_eq!(
        perform(&mut ledger, a, Operation::Transfer { token: id, from: b, to: a }),
        Err(ERC721Error::NotOwner)
    );
    assert_eq!(
        perform(&mut ledger, b, Operation::Burn { owner: b, token: id }),
        Err(ERC721Error::NotMinted)
    );
    assert_eq!(
        perform(&mut ledger, b, Operation::Mint { to: b, token: id }),
        Err(ERC721Error::InvalidRecipient)
    );
    assert_eq!(ledger.recorded_owner(id), a);
    assert_eq!(ledger.approved_spender(id), b);
    assert_eq!(ledger.balance_of(a), U256::from_u64(1));
    assert_eq!(ledger.balance_of(b), U256::zero());
}

#[test]
fn room_is_about_the_balances_that_change() {
    let (a, b) = (account(1), account(2));
    let id = U256::from_u64(1);
    let mut ledger = Ledger::new();
    ledger.set_owner(id, a);
    let transfer = Operation::Transfer { token: id, from: a, to: b };
    // The owner is recorded without a balance: a transfer would lower zero.
    assert!(!room_for(&ledger, a, transfer));
    assert!(!room_for(&ledger, a, Operation::Burn { owner: a, token: id }));
    // A refused operation changes no balance and always has room.
    assert!(room_for(&ledger, b, transfer));
    ledger.set_balance(a, U256::from_u64(1));
    assert!(room_for(&ledger, a, transfer));
    assert!(room_for(&ledger, a, Operation::Burn { owner: a, token: id }));
    ledger.set_balance(b, top());
    assert!(!room_for(&ledger, a, transfer));
    assert!(!room_for(&ledger, b, Operation::Mint { to: b, token: U256::from_u64(2) }));
    assert!(room_for(&ledger, a, Operation::Mint { to: a, token: U256::from_u64(2) }));
    // A transfer to oneself lowers before it raises.
    ledger.set_balance(a, top());
    assert!(room_for(&ledger, a, Operation::Transfer { token: id, from: a, to: a }));
    assert!(room_for(&ledger, a, Operation::Approve { token: id, spender: b }));
    assert!(room_for(
        &ledger,
        a,
        Operation::SetOperatorApproval { operator: b, approved: true }
    ));
}

#[test]
fn transfer_to_oneself_at_the_largest_balance() {
    let a = account(1);
    let id = U256::from_u64(1);
    let mut ledger = Ledger::new();
    ledger.set_owner(id, a);
    ledger.set_balance(a, top());
    assert_eq!(
        perform(&mut ledger, a, Operation::Transfer { token: id, from: a, to: a }),
        Ok(Event::Transfer { from: a, to: a, id })
    );
    assert_eq!(ledger.balance_of(a), top());
}

#[test]
fn issue_returns_the_counter_that_follows() {
    let a = account(1);
    let zero = Address::zero_address();
    let mut ledger = Ledger::new();
    assert_eq!(
        issue(&mut ledger, U256::from_u64(0), a),
        Ok((Event::Transfer { from: zero, to: a, id: U256::from_u64(0) }, U256::from_u64(1)))
    );
    assert_eq!(
        issue(&mut ledger, U256::new(0, u128::MAX), a),
        Ok((Event::Transfer { from: zero, to: a, id: U256::new(0, u128::MAX) }, U256::new(1, 0)))
    );
    assert_eq!(ledger.balance_of(a), U256::from_u64(2));
    assert_eq!(issue(&mut ledger, U256::from_u64(0), a), Err(ERC721Error::InvalidRecipient));
    assert_eq!(issue(&mut ledger, U256::from_u64(5), zero), Err(ERC721Error::InvalidRecipient));
    assert_eq!(ledger.balance_of(a), U256::from_u64(2));
    assert_eq!(ledger.recorded_owner(U256::from_u64(5)), zero);
}

#[test]
fn metadata_on_a_ledger() {
    let id = U256::new(1, 77);
    let mut ledger = Ledger::new();
    assert_eq!(render_request_on(&ledger, id), Err(ERC721Error::NonexistentToken(id)));
    assert_eq!(
        token_uri_on(&ledger, id, &Vec::new()),
        Err(MetadataError::Token(ERC721Error::NonexistentToken(id)))
    );
    ledger.set_owner(id, account(1));
    assert_eq!(
        render_request_on(&ledger, id),
        Ok(RenderRequest { seed: 77, width: 800, height: 800, max_iterations: 1000 })
    );
    assert_eq!(
        token_uri_on(&ledger, id, &Vec::new()),
        Err(MetadataError::Image(PackageError::RasterSize))
    );
}

#[test]
fn execute_is_the_protocol_on_a_collection() {
    let (a, b) = (account(1), account(2));
    let id = U256::from_u64(9);
    let mut tokens = ERC721::new(ERC721Params { name: "N", symbol: "S" });
    assert_eq!(
        tokens.execute(a, Operation::Mint { to: a, token: id }),
        Ok(Event::Transfer { from: Address::zero_address(), to: a, id })
    );
    assert_eq!(
        tokens.execute(b, Operation::Transfer { token: id, from: a, to: b }),
        Err(ERC721Error::NotAuthorized)
    );
    assert_eq!(
        tokens.execute(a, Operation::Transfer { token: id, from: a, to: b }),
        Ok(Event::Transfer { from: a, to: b, id })
    );
    assert_eq!(tokens.ledger().recorded_owner(id), b);
    assert_eq!(tokens.ledger().balance_of(b), U256::from_u64(1));
}

#[test]
fn interfaces_by_their_four_bytes() {
    assert!(declares_interface(&vec![0x80, 0xac, 0x58, 0xcd]));
    assert!(!declares_interface(&vec![0x80, 0xac, 0x58]));
    assert!(!declares_interface(&vec![0xff, 0xff, 0xff, 0xff]));
}

#[test]
fn footprints_name_the_entries_touched() {
    let (caller, a, b) = (account(9), account(1), account(2));
    let id = U256::from_u64(6);

    let approve = footprint(caller, Operation::Approve { token: id, spender: b }, a);
    assert_eq!(approve.tokens, vec![id]);
    assert_eq!(approve.holders, Vec::new());
    assert_eq!(approve.grants, vec![Grant { owner: a, operator: caller }]);

    let operator = footprint(
        caller,
        Operation::SetOperatorApproval { operator: b, approved: false },
        Address::zero_address(),
    );
    assert_eq!(operator.tokens, Vec::new());
    assert_eq!(operator.holders, Vec::new());
    assert_eq!(operator.grants, vec![Grant { owner: caller, operator: b }]);

    let transfer = footprint(caller, Operation::Transfer { token: id, from: a, to: b }, a);
    assert_eq!(transfer.tokens, vec![id]);
    assert_eq!(transfer.holders, vec![a, b]);
    assert_eq!(transfer.grants, vec![Grant { owner: a, operator: caller }]);

    let mint = footprint(caller, Operation::Mint { to: a, token: id }, Address::zero_address());
    assert_eq!(mint.tokens, vec![id]);
    assert_eq!(mint.holders, vec![a]);
    assert_eq!(mint.grants, Vec::new());

    let burn = footprint(caller, Operation::Burn { owner: b, token: id }, b);
    assert_eq!(burn.tokens, vec![id]);
    assert_eq!(burn.holders, vec![b]);
    assert_eq!(burn.grants, Vec::new());

    let query = footprint_of_token(id);
    assert_eq!(query.tokens, vec![id]);
    assert_eq!(query.holders, Vec::new());
    assert_eq!(query.grants, Vec::new());

    assert_eq!(Operation::Approve { token: id, spender: b }.token(), Some(id));
    assert_eq!(Operation::SetOperatorApproval { operator: b, approved: true }.token(), None);
    assert_eq!(Operation::Burn { owner: b, token: id }.token(), Some(id));
}

#[test]
fn a_copy_of_the_footprint_behaves_as_the_ledger() {
    let (a, b, c) = (account(1), account(2), account(3));
    let mut whole = Ledger::new();
    for n in 0..6u64 {
        let to = if n < 4 { a } else { b };
        perform(&mut whole, to, Operation::Mint { to, token: U256::from_u64(n) }).unwrap();
    }
    perform(&mut whole, a, Operation::Approve { token: U256::from_u64(2), spender: c }).unwrap();

    let operation = Operation::Transfer { token: U256::from_u64(2), from: a, to: b };
    let keys = footprint(c, operation, whole.recorded_owner(U256::from_u64(2)));
    let mut copy = Ledger::new();
    for token in &keys.tokens {
        copy.set_owner(*token, whole.recorded_owner(*token));
        copy.set_approved(*token, whole.approved_spender(*token));
    }
    for holder in &keys.holders {
        copy.set_balance(*holder, whole.balance_of(*holder));
    }
    for grant in &keys.grants {
        let approved = whole.is_approved_for_all(grant.owner, grant.operator);
        copy.set_operator_approval(grant.owner, grant.operator, approved);
    }
    assert_eq!(room_for(&copy, c, operation), room_for(&whole, c, operation));
    assert_eq!(perform(&mut copy, c, operation), perform(&mut whole, c, operation));
    for token in &keys.tokens {
        assert_eq!(copy.recorded_owner(*token), whole.recorded_owner(*token));
        assert_eq!(copy.approved_spender(*token), whole.approved_spender(*token));
    }
    for holder in &keys.holders {
        assert_eq!(copy.balance_of(*holder), whole.balance_of(*holder));
    }
    assert_eq!(whole.balance_of(a), U256::from_u64(3));
    assert_eq!(whole.balance_of(b), U256::from_u64(3));
    assert_eq!(whole.recorded_owner(U256::from_u64(2)), b);
    assert_eq!(whole.recorded_owner(U256::from_u64(0)), a);
}
