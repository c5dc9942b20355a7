//! The token protocol: each operation asks the authorization engine, then
//! changes the ledger in a fixed order, then reports the event to emit.

use crate::address::Address;
use crate::auth::{authorize, owns, verdict, Operation};
use crate::error::ERC721Error;
use crate::ledger::{lemma_owned_bounded, BalanceDelta, Ledger, LedgerState};
use crate::word::U256;
use vstd::prelude::*;

verus! {

/// A notification for the host to emit after a successful operation.
#[derive(Clone, Copy, Debug, PartialEq, Eq, Structural)]
pub enum Event {
    /// `id` went from `from` to `to`; the zero identity stands for the
    /// origin of a mint and the destination of a burn.
    Transfer { from: Address, to: Address, id: U256 },
    /// `owner` approved `spender` for `id`.
    Approval { owner: Address, spender: Address, id: U256 },
    /// `owner` approved or revoked `operator` for all its tokens.
    ApprovalForAll { owner: Address, operator: Address, approved: bool },
}

/// The state after `token` is created for `to`: the balance of `to` grows,
/// the token gets its owner, its approval is cleared.
pub open spec fn minted(state: LedgerState, to: Address, token: U256) -> LedgerState {
    state.with_balance(to, state.balances[to] + 1).with_owner(token, to).with_approval(
        token,
        Address::zero(),
    )
}

/// The state after `token` moves from `from` to `to`: the balance of `from`
/// shrinks, that of `to` grows, the owner changes, the approval is cleared.
pub open spec fn transferred(
    state: LedgerState,
    from: Address,
    to: Address,
    token: U256,
) -> LedgerState {
    let debited = state.with_balance(from, (state.balances[from] - 1) as nat);
    let credited = debited.with_balance(to, debited.balances[to] + 1);
    credited.with_owner(token, to).with_approval(token, Address::zero())
}

/// The state after `token`, held by `owner`, is destroyed: the balance of
/// `owner` shrinks, the token loses its owner, its approval is cleared.
pub open spec fn burned(state: LedgerState, owner: Address, token: U256) -> LedgerState {
    state.with_balance(owner, (state.balances[owner] - 1) as nat).with_owner(
        token,
        Address::zero(),
    ).with_approval(token, Address::zero())
}

/// The state after `operation`, asked for by `caller`, is carried out.
pub open spec fn applied(state: LedgerState, caller: Address, operation: Operation) -> LedgerState {
    match operation {
        Operation::Approve { token, spender } => state.with_approval(token, spender),
        Operation::SetOperatorApproval { operator, approved } => state.with_operator(
            caller,
            operator,
            approved,
        ),
        Operation::Transfer { token, from, to } => transferred(state, from, to, token),
        Operation::Mint { to, token } => minted(state, to, token),
        Operation::Burn { owner, token } => burned(state, owner, token),
    }
}

/// One step of the protocol: a permitted operation is carried out, a
/// refused one leaves the state as it was.
pub open spec fn step(state: LedgerState, caller: Address, operation: Operation) -> LedgerState {
    if verdict(state, caller, operation) is Ok {
        applied(state, caller, operation)
    } else {
        state
    }
}

/// The event that reports `operation`, asked for by `caller` in `state`.
pub open spec fn event_of(state: LedgerState, caller: Address, operation: Operation) -> Event {
    match operation {
        Operation::Approve { token, spender } => Event::Approval {
            owner: state.owners[token],
            spender,
            id: token,
        },
        Operation::SetOperatorApproval { operator, approved } => Event::ApprovalForAll {
            owner: caller,
            operator,
            approved,
        },
        Operation::Transfer { token, from, to } => Event::Transfer { from, to, id: token },
        Operation::Mint { to, token } => Event::Transfer { from: Address::zero(), to, id: token },
        Operation::Burn { owner, token } => Event::Transfer {
            from: owner,
            to: Address::zero(),
            id: token,
        },
    }
}

/// What the caller gets back: the event of a permitted operation, or the
/// error of a refused one.
pub open spec fn outcome(state: LedgerState, caller: Address, operation: Operation) -> Result<
    Event,
    ERC721Error,
> {
    match verdict(state, caller, operation) {
        Ok(_) => Ok(event_of(state, caller, operation)),
        Err(e) => Err(e),
    }
}

/// Giving `token`, which does not exist, to a holder other than the zero
/// identity keeps the state consistent once the balance follows.
pub proof fn lemma_mint_consistent(state: LedgerState, to: Address, token: U256)
    requires
        state.consistent(),
        !state.token_exists(token),
        to != Address::zero(),
    ensures
        minted(state, to, token).consistent(),
        minted(state, to, token).tokens() == state.tokens().insert(token),
{
    let after = minted(state, to, token);
    assert(after.tokens() =~= state.tokens().insert(token));
    assert forall|a: Address| after.balances[a] == after.owned_by(a).len() by {
        lemma_owned_bounded(state, a);
        if a == to {
            assert(after.owned_by(a) =~= state.owned_by(a).insert(token));
            assert(state.balances[a] == state.owned_by(a).len());
        } else {
            assert(after.owned_by(a) =~= state.owned_by(a));
            assert(state.balances[a] == state.owned_by(a).len());
        }
    }
}

/// Moving `token` from its owner to a holder other than the zero identity
/// keeps the state consistent and the set of tokens as it was.
pub proof fn lemma_transfer_consistent(state: LedgerState, from: Address, to: Address, token: U256)
    requires
        state.consistent(),
        owns(state, from, token),
        to != Address::zero(),
    ensures
        transferred(state, from, to, token).consistent(),
        transferred(state, from, to, token).tokens() == state.tokens(),
        state.balances[from] > 0,
{
    let after = transferred(state, from, to, token);
    assert(after.tokens() =~= state.tokens());
    lemma_owned_bounded(state, from);
    assert(state.owned_by(from).contains(token));
    assert(state.balances[from] == state.owned_by(from).len());
    assert forall|a: Address| after.balances[a] == after.owned_by(a).len() by {
        lemma_owned_bounded(state, a);
        assert(state.balances[a] == state.owned_by(a).len());
        if from == to {
            assert(after.owned_by(a) =~= state.owned_by(a));
        } else if a == from {
            assert(after.owned_by(a) =~= state.owned_by(a).remove(token));
        } else if a == to {
            assert(after.owned_by(a) =~= state.owned_by(a).insert(token));
        } else {
            assert(after.owned_by(a) =~= state.owned_by(a));
        }
    }
}

/// Destroying `token`, which `owner` holds, keeps the state consistent.
pub proof fn lemma_burn_consistent(state: LedgerState, owner: Address, token: U256)
    requires
        state.consistent(),
        owns(state, owner, token),
    ensures
        burned(state, owner, token).consistent(),
        burned(state, owner, token).tokens() == state.tokens().remove(token),
        state.balances[owner] > 0,
{
    let after = burned(state, owner, token);
    assert(after.tokens() =~= state.tokens().remove(token));
    lemma_owned_bounded(state, owner);
    assert(state.owned_by(owner).contains(token));
    assert(state.balances[owner] == state.owned_by(owner).len());
    assert forall|a: Address| after.balances[a] == after.owned_by(a).len() by {
        lemma_owned_bounded(state, a);
        assert(state.balances[a] == state.owned_by(a).len());
        if a == owner {
            assert(after.owned_by(a) =~= state.owned_by(a).remove(token));
        } else {
            assert(after.owned_by(a) =~= state.owned_by(a));
        }
    }
}

/// Every step of the protocol keeps a consistent state consistent: after
/// it, each balance is again the number of tokens that the identity owns,
/// and only tokens that exist have an approved spender.
pub proof fn lemma_step_consistent(state: LedgerState, caller: Address, operation: Operation)
    requires
        state.consistent(),
    ensures
        step(state, caller, operation).consistent(),
{
    if verdict(state, caller, operation) is Ok {
        let after = applied(state, caller, operation);
        match operation {
            Operation::Approve { .. } | Operation::SetOperatorApproval { .. } => {
                assert(after.tokens() =~= state.tokens());
                assert forall|a: Address| after.balances[a] == after.owned_by(a).len() by {
                    assert(after.owned_by(a) =~= state.owned_by(a));
                    assert(state.balances[a] == state.owned_by(a).len());
                }
            },
            Operation::Transfer { token, from, to } => {
                lemma_transfer_consistent(state, from, to, token);
            },
            Operation::Mint { to, token } => {
                lemma_mint_consistent(state, to, token);
            },
            Operation::Burn { owner, token } => {
                lemma_burn_consistent(state, owner, token);
            },
        }
    }
}

/// A request to the protocol: who asks, and for what.
pub struct Request {
    /// The identity of the caller.
    pub caller: Address,
    /// What the caller asks for.
    pub operation: Operation,
}

/// The state after the protocol has handled `requests` in order, starting
/// from `state`.
pub open spec fn run(state: LedgerState, requests: Seq<Request>) -> LedgerState
    decreases requests.len(),
{
    if requests.len() == 0 {
        state
    } else {
        step(run(state, requests.drop_last()), requests.last().caller, requests.last().operation)
    }
}

/// Invariant preservation: whatever mints, transfers, burns and approvals
/// are asked for, in whatever order and by whomever, the state is consistent
/// after each of them.
pub proof fn lemma_run_consistent(state: LedgerState, requests: Seq<Request>)
    requires
        state.consistent(),
    ensures
        forall|k: int|
            0 <= k <= requests.len() ==> (#[trigger] run(state, requests.take(k))).consistent(),
    decreases requests.len(),
{
    assert forall|k: int| 0 <= k <= requests.len() implies (#[trigger] run(
        state,
        requests.take(k),
    )).consistent() by {
        let prefix = requests.take(k);
        if k > 0 {
            lemma_run_consistent(state, requests.take(k - 1));
            assert(requests.take(k - 1).take(k - 1) =~= requests.take(k - 1));
            assert(prefix.drop_last() =~= requests.take(k - 1));
            lemma_step_consistent(
                run(state, prefix.drop_last()),
                prefix.last().caller,
                prefix.last().operation,
            );
        }
    }
}

/// Approval reset: after a transfer or a burn that is permitted, the token
/// has no approved spender.
pub proof fn lemma_owner_change_clears_approval(
    state: LedgerState,
    caller: Address,
    operation: Operation,
)
    requires
        verdict(state, caller, operation) is Ok,
    ensures
        operation matches Operation::Transfer { token, .. } ==> step(
            state,
            caller,
            operation,
        ).approvals[token] == Address::zero(),
        operation matches Operation::Burn { token, .. } ==> step(
            state,
            caller,
            operation,
        ).approvals[token] == Address::zero(),
        operation matches Operation::Mint { token, .. } ==> step(
            state,
            caller,
            operation,
        ).approvals[token] == Address::zero(),
{
}

/// Operator approvals belong to the pair of owner and operator alone: no
/// approval of a spender, no mint, transfer or burn changes any of them.
pub proof fn lemma_operators_kept(state: LedgerState, caller: Address, operation: Operation)
    requires
        !(operation is SetOperatorApproval),
    ensures
        step(state, caller, operation).operators == state.operators,
{
}

/// Whether the balances leave room for `operation`: where it is permitted,
/// a balance that it lowers is above zero and one that it raises is below
/// the largest value. A consistent state always has room.
pub open spec fn has_room(state: LedgerState, caller: Address, operation: Operation) -> bool {
    verdict(state, caller, operation) is Ok ==> match operation {
        Operation::Transfer { token, from, to } => {
            &&& state.balances[from] > 0
            &&& from != to ==> state.balances[to] < U256::max_value()
        },
        Operation::Mint { to, token } => state.balances[to] < U256::max_value(),
        Operation::Burn { owner, token } => state.balances[owner] > 0,
        _ => true,
    }
}

/// A consistent ledger that holds no more tokens than `usize` counts has
/// room for every operation.
pub proof fn lemma_consistent_has_room(state: LedgerState, caller: Address, operation: Operation)
    requires
        state.consistent(),
        state.tokens().len() <= usize::MAX,
    ensures
        has_room(state, caller, operation),
{
    if verdict(state, caller, operation) is Ok {
        match operation {
            Operation::Transfer { token, from, to } => {
                lemma_transfer_consistent(state, from, to, token);
                lemma_owned_bounded(state, to);
                assert(state.balances[to] == state.owned_by(to).len());
            },
            Operation::Mint { to, token } => {
                lemma_owned_bounded(state, to);
                assert(state.balances[to] == state.owned_by(to).len());
            },
            Operation::Burn { owner, token } => {
                lemma_burn_consistent(state, owner, token);
            },
            _ => {},
        }
    }
}

/// Decides [`has_room`].
pub fn room_for(ledger: &Ledger, caller: Address, operation: Operation) -> (room: bool)
    ensures
        room == has_room(ledger@, caller, operation),
{
    if authorize(ledger, caller, operation).is_err() {
        return true;
    }
    match operation {
        Operation::Transfer { token, from, to } => {
            !ledger.balance_of(from).is_zero() && (from == to || ledger.balance_of(
                to,
            ).checked_succ().is_some())
        },
        Operation::Mint { to, token } => ledger.balance_of(to).checked_succ().is_some(),
        Operation::Burn { owner, token } => !ledger.balance_of(owner).is_zero(),
        _ => true,
    }
}

/// Carries out `operation` for `caller` on `ledger`.
///
/// The authorization engine is asked first; where it refuses, nothing
/// changes and its error is returned. Otherwise the ledger changes in a
/// fixed order (the balance of the source, the balance of the destination,
/// the owner, the approval) and the event to emit is returned.
pub fn perform(ledger: &mut Ledger, caller: Address, operation: Operation) -> (result: Result<
    Event,
    ERC721Error,
>)
    requires
        has_room(old(ledger)@, caller, operation),
    ensures
        result == outcome(old(ledger)@, caller, operation),
        final(ledger)@ == step(old(ledger)@, caller, operation),
{
    match authorize(ledger, caller, operation) {
        Err(e) => Err(e),
        Ok(_) => match operation {
            Operation::Approve { token, spender } => {
                let owner = ledger.recorded_owner(token);
                ledger.set_approved(token, spender);
                Ok(Event::Approval { owner, spender, id: token })
            },
            Operation::SetOperatorApproval { operator, approved } => {
                ledger.set_operator_approval(caller, operator, approved);
                Ok(Event::ApprovalForAll { owner: caller, operator, approved })
            },
            Operation::Transfer { token, from, to } => {
                proof {
                    ledger.lemma_view_bounded();
                }
                ledger.adjust_balance(from, BalanceDelta::Decrement);
                ledger.adjust_balance(to, BalanceDelta::Increment);
                ledger.set_owner(token, to);
                ledger.set_approved(token, Address::zero_address());
                Ok(Event::Transfer { from, to, id: token })
            },
            Operation::Mint { to, token } => {
                ledger.adjust_balance(to, BalanceDelta::Increment);
                ledger.set_owner(token, to);
                ledger.set_approved(token, Address::zero_address());
                Ok(Event::Transfer { from: Address::zero_address(), to, id: token })
            },
            Operation::Burn { owner, token } => {
                ledger.adjust_balance(owner, BalanceDelta::Decrement);
                ledger.set_owner(token, Address::zero_address());
                ledger.set_approved(token, Address::zero_address());
                Ok(Event::Transfer { from: owner, to: Address::zero_address(), id: token })
            },
        },
    }
}

} // verus!
