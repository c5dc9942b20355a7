//! The entries of the ledger that an operation reads and may change.
//!
//! A host that keeps the mappings in storage of its own need not hold the
//! whole ledger in memory: it is enough to copy the entries of the
//! footprint into a ledger, perform the operation there, and copy the same
//! entries back.

use crate::address::{Address, Grant};
use crate::auth::{verdict, Operation};
use crate::ledger::LedgerState;
use crate::protocol::{has_room, outcome, step};
use crate::word::U256;
use vstd::prelude::*;

verus! {

/// The keys of the entries that an operation touches: tokens, for their
/// owner and approved spender; holders, for their balance; and pairs of
/// owner and operator, for the approval between them.
pub struct Footprint {
    /// The tokens whose owner and approved spender matter.
    pub tokens: Vec<U256>,
    /// The identities whose balance matters.
    pub holders: Vec<Address>,
    /// The pairs of owner and operator whose approval matters.
    pub grants: Vec<Grant>,
}

/// The mathematical content of a [`Footprint`].
pub struct Keys {
    /// The tokens.
    pub tokens: Seq<U256>,
    /// The holders.
    pub holders: Seq<Address>,
    /// The pairs of owner and operator.
    pub grants: Seq<Grant>,
}

impl View for Footprint {
    type V = Keys;

    open spec fn view(&self) -> Keys {
        Keys { tokens: self.tokens@, holders: self.holders@, grants: self.grants@ }
    }
}

impl Operation {
    /// The token that the operation is about, if it is about one.
    pub open spec fn subject(self) -> Option<U256> {
        match self {
            Operation::Approve { token, .. } => Some(token),
            Operation::SetOperatorApproval { .. } => None,
            Operation::Transfer { token, .. } => Some(token),
            Operation::Mint { token, .. } => Some(token),
            Operation::Burn { token, .. } => Some(token),
        }
    }

    /// Computes [`Operation::subject`].
    pub fn token(&self) -> (token: Option<U256>)
        ensures
            token == self.subject(),
    {
        match self {
            Operation::Approve { token, .. } => Some(*token),
            Operation::SetOperatorApproval { .. } => None,
            Operation::Transfer { token, .. } => Some(*token),
            Operation::Mint { token, .. } => Some(*token),
            Operation::Burn { token, .. } => Some(*token),
        }
    }
}

/// The keys that `operation`, asked for by `caller`, touches, where
/// `recorded` is the owner that the ledger records for its token.
pub open spec fn touched(caller: Address, operation: Operation, recorded: Address) -> Keys {
    match operation {
        Operation::Approve { token, spender } => Keys {
            tokens: seq![token],
            holders: seq![],
            grants: seq![Grant { owner: recorded, operator: caller }],
        },
        Operation::SetOperatorApproval { operator, approved } => Keys {
            tokens: seq![],
            holders: seq![],
            grants: seq![Grant { owner: caller, operator }],
        },
        Operation::Transfer { token, from, to } => Keys {
            tokens: seq![token],
            holders: seq![from, to],
            grants: seq![Grant { owner: from, operator: caller }],
        },
        Operation::Mint { to, token } => Keys {
            tokens: seq![token],
            holders: seq![to],
            grants: seq![],
        },
        Operation::Burn { owner, token } => Keys {
            tokens: seq![token],
            holders: seq![owner],
            grants: seq![],
        },
    }
}

/// The owner that `state` records for the token of `operation`: the zero
/// identity for an operation about no token.
pub open spec fn recorded_for(state: LedgerState, operation: Operation) -> Address {
    match operation.subject() {
        Some(token) => state.owners[token],
        None => Address::zero(),
    }
}

/// Whether two states hold the same under every key of `keys`.
pub open spec fn agree_on(first: LedgerState, second: LedgerState, keys: Keys) -> bool {
    &&& forall|t: U256| #[trigger]
        keys.tokens.contains(t) ==> first.owners[t] == second.owners[t] && first.approvals[t]
            == second.approvals[t]
    &&& forall|a: Address| #[trigger]
        keys.holders.contains(a) ==> first.balances[a] == second.balances[a]
    &&& forall|g: Grant| #[trigger]
        keys.grants.contains(g) ==> first.is_operator(g.owner, g.operator) == second.is_operator(
            g.owner,
            g.operator,
        )
}

/// Whether two states hold the same under every key outside `keys`.
pub open spec fn agree_outside(first: LedgerState, second: LedgerState, keys: Keys) -> bool {
    &&& forall|t: U256| #[trigger]
        keys.tokens.contains(t) || (first.owners[t] == second.owners[t] && first.approvals[t]
            == second.approvals[t])
    &&& forall|a: Address| #[trigger]
        keys.holders.contains(a) || first.balances[a] == second.balances[a]
    &&& forall|g: Grant| #[trigger]
        keys.grants.contains(g) || first.is_operator(g.owner, g.operator) == second.is_operator(
            g.owner,
            g.operator,
        )
}

/// The footprint of a token alone: what a query about it reads.
pub fn footprint_of_token(token: U256) -> (footprint: Footprint)
    ensures
        footprint@ == (Keys { tokens: seq![token], holders: seq![], grants: seq![] }),
{
    let mut tokens: Vec<U256> = Vec::new();
    tokens.push(token);
    let footprint = Footprint { tokens, holders: Vec::new(), grants: Vec::new() };
    assert(footprint@.tokens =~= seq![token]);
    footprint
}

/// Computes [`touched`].
pub fn footprint(caller: Address, operation: Operation, recorded: Address) -> (footprint: Footprint)
    ensures
        footprint@ == touched(caller, operation, recorded),
{
    let mut tokens: Vec<U256> = Vec::new();
    let mut holders: Vec<Address> = Vec::new();
    let mut grants: Vec<Grant> = Vec::new();
    match operation {
        Operation::Approve { token, spender } => {
            tokens.push(token);
            grants.push(Grant { owner: recorded, operator: caller });
        },
        Operation::SetOperatorApproval { operator, approved } => {
            grants.push(Grant { owner: caller, operator });
        },
        Operation::Transfer { token, from, to } => {
            tokens.push(token);
            holders.push(from);
            holders.push(to);
            grants.push(Grant { owner: from, operator: caller });
        },
        Operation::Mint { to, token } => {
            tokens.push(token);
            holders.push(to);
        },
        Operation::Burn { owner, token } => {
            tokens.push(token);
            holders.push(owner);
        },
    }
    let footprint = Footprint { tokens, holders, grants };
    proof {
        let keys = touched(caller, operation, recorded);
        assert(footprint@.tokens =~= keys.tokens);
        assert(footprint@.holders =~= keys.holders);
        assert(footprint@.grants =~= keys.grants);
    }
    footprint
}

/// Locality: an operation reads and changes the ledger under the keys of its
/// footprint alone. A copy that agrees with the ledger on the footprint
/// gives the same verdict and the same event, holds after the step what the
/// ledger holds after it under those keys, and outside them the step
/// changes nothing.
pub proof fn lemma_footprint_suffices(
    ledger: LedgerState,
    copy: LedgerState,
    caller: Address,
    operation: Operation,
)
    requires
        agree_on(ledger, copy, touched(caller, operation, recorded_for(ledger, operation))),
    ensures
        verdict(copy, caller, operation) == verdict(ledger, caller, operation),
        outcome(copy, caller, operation) == outcome(ledger, caller, operation),
        has_room(copy, caller, operation) == has_room(ledger, caller, operation),
        agree_on(
            step(ledger, caller, operation),
            step(copy, caller, operation),
            touched(caller, operation, recorded_for(ledger, operation)),
        ),
        agree_outside(
            step(ledger, caller, operation),
            ledger,
            touched(caller, operation, recorded_for(ledger, operation)),
        ),
{
    let keys = touched(caller, operation, recorded_for(ledger, operation));
    match operation {
        Operation::Approve { token, spender } => {
            assert(keys.tokens[0] == token);
            assert(keys.tokens.contains(token));
            assert(keys.grants[0] == Grant { owner: ledger.owners[token], operator: caller });
            assert(keys.grants.contains(Grant { owner: ledger.owners[token], operator: caller }));
        },
        Operation::SetOperatorApproval { operator, approved } => {
            assert(keys.grants[0] == Grant { owner: caller, operator });
            assert(keys.grants.contains(Grant { owner: caller, operator }));
        },
        Operation::Transfer { token, from, to } => {
            assert(keys.tokens[0] == token);
            assert(keys.tokens.contains(token));
            assert(keys.holders[0] == from && keys.holders[1] == to);
            assert(keys.holders.contains(from) && keys.holders.contains(to));
            assert(keys.grants[0] == Grant { owner: from, operator: caller });
            assert(keys.grants.contains(Grant { owner: from, operator: caller }));
        },
        Operation::Mint { to, token } => {
            assert(keys.tokens[0] == token);
            assert(keys.tokens.contains(token));
            assert(keys.holders[0] == to);
            assert(keys.holders.contains(to));
        },
        Operation::Burn { owner, token } => {
            assert(keys.tokens[0] == token);
            assert(keys.tokens.contains(token));
            assert(keys.holders[0] == owner);
            assert(keys.holders.contains(owner));
        },
    }
}

} // verus!
