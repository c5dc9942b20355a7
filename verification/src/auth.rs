//! The authorization engine: who may do what, decided from a snapshot of the
//! ledger and without changing it.

use crate::address::Address;
use crate::error::ERC721Error;
use crate::ledger::{Ledger, LedgerState};
use crate::word::U256;
use vstd::prelude::*;

verus! {

/// An operation that a caller asks for.
#[derive(Clone, Copy, Debug, PartialEq, Eq, Structural)]
pub enum Operation {
    /// Approve `spender` for `token`.
    Approve { token: U256, spender: Address },
    /// Approve or revoke `operator` for all tokens of the caller.
    SetOperatorApproval { operator: Address, approved: bool },
    /// Move `token` from `from` to `to`.
    Transfer { token: U256, from: Address, to: Address },
    /// Create `token` for `to`.
    Mint { to: Address, token: U256 },
    /// Destroy `token`, which `owner` holds.
    Burn { owner: Address, token: U256 },
}

/// Whether `token` exists and `holder` owns it.
pub open spec fn owns(state: LedgerState, holder: Address, token: U256) -> bool {
    state.token_exists(token) && state.owners[token] == holder
}

/// Whether `caller` may approve a spender for `token`: the caller owns it,
/// or is an operator of its owner.
pub open spec fn may_approve(state: LedgerState, caller: Address, token: U256) -> bool {
    state.token_exists(token) && (caller == state.owners[token] || state.is_operator(
        state.owners[token],
        caller,
    ))
}

/// Whether `caller` may move `token` out of the hands of `from`: the caller
/// is `from`, an operator of `from`, or the approved spender of the token.
pub open spec fn may_move(state: LedgerState, caller: Address, from: Address, token: U256) -> bool {
    caller == from || state.is_operator(from, caller) || state.approvals[token] == caller
}

/// The verdict on a transfer. The checks run in this order and the first
/// that fails gives the error: the source owns the token, the destination
/// is not the zero identity, the caller may move the token.
pub open spec fn transfer_verdict(
    state: LedgerState,
    caller: Address,
    token: U256,
    from: Address,
    to: Address,
) -> Result<(), ERC721Error> {
    if !owns(state, from, token) {
        Err(ERC721Error::NotOwner)
    } else if to == Address::zero() {
        Err(ERC721Error::InvalidRecipient)
    } else if !may_move(state, caller, from, token) {
        Err(ERC721Error::NotAuthorized)
    } else {
        Ok(())
    }
}

/// The verdict on `operation` asked for by `caller` in `state`: `Ok` if it
/// is permitted, else the error that the caller sees.
pub open spec fn verdict(state: LedgerState, caller: Address, operation: Operation) -> Result<
    (),
    ERC721Error,
> {
    match operation {
        Operation::Approve { token, spender } => if may_approve(state, caller, token) {
            Ok(())
        } else {
            Err(ERC721Error::NotOwner)
        },
        Operation::SetOperatorApproval { operator, approved } => Ok(()),
        Operation::Transfer { token, from, to } => transfer_verdict(state, caller, token, from, to),
        Operation::Mint { to, token } => if state.token_exists(token) || to == Address::zero() {
            Err(ERC721Error::InvalidRecipient)
        } else {
            Ok(())
        },
        Operation::Burn { owner, token } => if owns(state, owner, token) {
            Ok(())
        } else {
            Err(ERC721Error::NotMinted)
        },
    }
}

/// Decides whether `caller` may perform `operation` on `ledger`.
pub fn authorize(ledger: &Ledger, caller: Address, operation: Operation) -> (result: Result<
    (),
    ERC721Error,
>)
    ensures
        result == verdict(ledger@, caller, operation),
{
    match operation {
        Operation::Approve { token, spender } => {
            let owner = ledger.recorded_owner(token);
            if !owner.is_zero() && (caller == owner || ledger.is_approved_for_all(owner, caller)) {
                Ok(())
            } else {
                Err(ERC721Error::NotOwner)
            }
        },
        Operation::SetOperatorApproval { operator, approved } => Ok(()),
        Operation::Transfer { token, from, to } => {
            let owner = ledger.recorded_owner(token);
            if owner.is_zero() || owner != from {
                return Err(ERC721Error::NotOwner);
            }
            if to.is_zero() {
                return Err(ERC721Error::InvalidRecipient);
            }
            if caller != from && !ledger.is_approved_for_all(from, caller)
                && ledger.approved_spender(token) != caller {
                return Err(ERC721Error::NotAuthorized);
            }
            Ok(())
        },
        Operation::Mint { to, token } => {
            if !ledger.recorded_owner(token).is_zero() || to.is_zero() {
                Err(ERC721Error::InvalidRecipient)
            } else {
                Ok(())
            }
        },
        Operation::Burn { owner, token } => {
            let recorded = ledger.recorded_owner(token);
            if !recorded.is_zero() && recorded == owner {
                Ok(())
            } else {
                Err(ERC721Error::NotMinted)
            }
        },
    }
}

/// A transfer that names a wrong source is refused with `NotOwner`, whatever
/// else is wrong with it: the ownership check comes first.
pub proof fn lemma_wrong_source_reported_first(
    state: LedgerState,
    caller: Address,
    token: U256,
    from: Address,
    to: Address,
)
    requires
        !owns(state, from, token),
    ensures
        verdict(state, caller, Operation::Transfer { token, from, to }) == Err::<(), ERC721Error>(
            ERC721Error::NotOwner,
        ),
{
}

} // verus!
