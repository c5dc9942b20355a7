//! The ownership ledger: four mappings and nothing else.
//!
//! The ledger is a pure state container. Its mutators check no permission;
//! deciding who may change what is the work of [`crate::auth`], and the order
//! of the changes that of [`crate::erc721`].

use crate::address::{Address, Grant};
use crate::error::ERC721Error;
use crate::table::Table;
use crate::word::{lemma_view_bound, U256};
use vstd::prelude::*;

verus! {

/// The mathematical content of a [`Ledger`]: four total mappings.
///
/// A token exists exactly when its owner is not the zero identity.
#[verifier::ext_equal]
pub struct LedgerState {
    /// Token to owner; the zero identity where there is none.
    pub owners: Map<U256, Address>,
    /// Identity to the recorded count of tokens it holds.
    pub balances: Map<Address, nat>,
    /// Token to approved spender; the zero identity where there is none.
    pub approvals: Map<U256, Address>,
    /// The pairs (owner, operator) for which the operator is approved.
    pub operators: Set<(Address, Address)>,
}

impl LedgerState {
    /// The state in which every mapping is at its default.
    pub open spec fn empty() -> LedgerState {
        LedgerState {
            owners: Map::total(|t: U256| Address::zero()),
            balances: Map::total(|a: Address| 0nat),
            approvals: Map::total(|t: U256| Address::zero()),
            operators: Set::empty(),
        }
    }

    /// Every mapping is defined on every key.
    pub open spec fn total(self) -> bool {
        &&& forall|t: U256| self.owners.dom().contains(t)
        &&& forall|a: Address| self.balances.dom().contains(a)
        &&& forall|t: U256| self.approvals.dom().contains(t)
    }

    /// Whether `token` has an owner.
    pub open spec fn token_exists(self, token: U256) -> bool {
        self.owners[token] != Address::zero()
    }

    /// The tokens that exist.
    pub open spec fn tokens(self) -> Set<U256> {
        Set::new(|t: U256| self.token_exists(t))
    }

    /// The tokens that `holder` owns.
    pub open spec fn owned_by(self, holder: Address) -> Set<U256> {
        Set::new(|t: U256| self.token_exists(t) && self.owners[t] == holder)
    }

    /// Whether `operator` may move every token of `owner`.
    pub open spec fn is_operator(self, owner: Address, operator: Address) -> bool {
        self.operators.contains((owner, operator))
    }

    /// The invariant that ties the mappings together: finitely many tokens
    /// exist, every balance is the number of tokens that the identity owns,
    /// and only a token that exists has an approved spender.
    pub open spec fn consistent(self) -> bool {
        &&& self.total()
        &&& self.tokens().finite()
        &&& forall|a: Address|
            #![trigger self.balances[a]]
            #![trigger self.owned_by(a)]
            self.balances[a] == self.owned_by(a).len()
        &&& forall|t: U256|
            !self.token_exists(t) ==> #[trigger] self.approvals[t] == Address::zero()
    }

    /// The state with `token` owned by `owner`.
    pub open spec fn with_owner(self, token: U256, owner: Address) -> LedgerState {
        LedgerState { owners: self.owners.insert(token, owner), ..self }
    }

    /// The state with `spender` approved for `token`.
    pub open spec fn with_approval(self, token: U256, spender: Address) -> LedgerState {
        LedgerState { approvals: self.approvals.insert(token, spender), ..self }
    }

    /// The state with the balance of `holder` set to `count`.
    pub open spec fn with_balance(self, holder: Address, count: nat) -> LedgerState {
        LedgerState { balances: self.balances.insert(holder, count), ..self }
    }

    /// The state with the approval of `operator` for `owner` set to `approved`.
    pub open spec fn with_operator(
        self,
        owner: Address,
        operator: Address,
        approved: bool,
    ) -> LedgerState {
        LedgerState {
            operators: if approved {
                self.operators.insert((owner, operator))
            } else {
                self.operators.remove((owner, operator))
            },
            ..self
        }
    }
}

/// In a state with finitely many tokens, the tokens of one holder are
/// finitely many too, and no more than all tokens.
pub proof fn lemma_owned_bounded(state: LedgerState, holder: Address)
    requires
        state.tokens().finite(),
    ensures
        state.owned_by(holder).finite(),
        state.owned_by(holder).len() <= state.tokens().len(),
{
    assert(state.owned_by(holder).subset_of(state.tokens()));
    vstd::set_lib::lemma_len_subset(state.owned_by(holder), state.tokens());
}

/// The empty state is consistent.
pub proof fn lemma_empty_consistent()
    ensures
        LedgerState::empty().consistent(),
{
    let state = LedgerState::empty();
    assert(state.tokens() =~= Set::<U256>::empty());
    assert forall|a: Address| state.owned_by(a).len() == 0 by {
        assert(state.owned_by(a) =~= Set::<U256>::empty());
    }
}

/// A change of a balance by one.
#[derive(Clone, Copy, Debug, PartialEq, Eq, Structural)]
pub enum BalanceDelta {
    /// One more token.
    Increment,
    /// One token fewer.
    Decrement,
}

impl BalanceDelta {
    /// The balance `count` after this change.
    pub open spec fn apply(self, count: nat) -> nat {
        match self {
            BalanceDelta::Increment => count + 1,
            BalanceDelta::Decrement => (count - 1) as nat,
        }
    }

    /// Whether this change keeps `count` within what a balance can hold.
    pub open spec fn fits(self, count: nat) -> bool {
        match self {
            BalanceDelta::Increment => count < U256::max_value(),
            BalanceDelta::Decrement => count > 0,
        }
    }
}

/// The ledger: token to owner, owner to balance, token to approved spender,
/// and (owner, operator) to approval.
pub struct Ledger {
    owners: Table<U256, Address>,
    balances: Table<Address, U256>,
    approvals: Table<U256, Address>,
    operators: Table<Grant, bool>,
}

impl View for Ledger {
    type V = LedgerState;

    /// The four mappings, each with its default where the table has no entry.
    closed spec fn view(&self) -> LedgerState {
        LedgerState {
            owners: Map::total(
                |t: U256|
                    if self.owners@.dom().contains(t) {
                        self.owners@[t]
                    } else {
                        Address::zero()
                    },
            ),
            balances: Map::total(
                |a: Address|
                    if self.balances@.dom().contains(a) {
                        self.balances@[a]@
                    } else {
                        0nat
                    },
            ),
            approvals: Map::total(
                |t: U256|
                    if self.approvals@.dom().contains(t) {
                        self.approvals@[t]
                    } else {
                        Address::zero()
                    },
            ),
            operators: Set::new(
                |p: (Address, Address)|
                    {
                        let grant = Grant { owner: p.0, operator: p.1 };
                        self.operators@.dom().contains(grant) && self.operators@[grant]
                    },
            ),
        }
    }
}

impl Ledger {
    /// The ledger in which no token exists and nothing is approved.
    pub fn new() -> (ledger: Ledger)
        ensures
            ledger@ == LedgerState::empty(),
    {
        let ledger = Ledger {
            owners: Table::new(),
            balances: Table::new(),
            approvals: Table::new(),
            operators: Table::new(),
        };
        assert(ledger@ =~= LedgerState::empty());
        ledger
    }

    /// Every mapping of a ledger is defined on every key, every balance is
    /// one that a [`U256`] holds, and the tokens that exist are finitely
    /// many: no more than `usize` counts.
    pub proof fn lemma_view_bounded(&self)
        ensures
            self@.total(),
            forall|a: Address| #[trigger] self@.balances[a] <= U256::max_value(),
            self@.tokens().finite(),
            self@.tokens().len() <= usize::MAX,
    {
        self.owners.lemma_bounded();
        assert(self@.tokens().subset_of(self.owners@.dom()));
        vstd::set_lib::lemma_len_subset(self@.tokens(), self.owners@.dom());
        assert forall|a: Address| #[trigger] self@.balances[a] <= U256::max_value() by {
            if self.balances@.dom().contains(a) {
                lemma_view_bound(self.balances@[a]);
            }
        }
    }

    /// The owner that the ledger records for `token`: the zero identity if
    /// the token does not exist.
    pub fn recorded_owner(&self, token: U256) -> (owner: Address)
        ensures
            owner == self@.owners[token],
    {
        match self.owners.get(&token) {
            Some(owner) => owner,
            None => Address::zero_address(),
        }
    }

    /// The owner of `token`, or `NonexistentToken` if it has none.
    pub fn owner_of(&self, token: U256) -> (result: Result<Address, ERC721Error>)
        ensures
            result == (if self@.token_exists(token) {
                Ok::<Address, ERC721Error>(self@.owners[token])
            } else {
                Err::<Address, ERC721Error>(ERC721Error::NonexistentToken(token))
            }),
    {
        let owner = self.recorded_owner(token);
        if owner.is_zero() {
            Err(ERC721Error::NonexistentToken(token))
        } else {
            Ok(owner)
        }
    }

    /// The number of tokens recorded for `holder`; zero for an identity that
    /// holds nothing.
    pub fn balance_of(&self, holder: Address) -> (count: U256)
        ensures
            count@ == self@.balances[holder],
    {
        match self.balances.get(&holder) {
            Some(count) => count,
            None => U256::zero(),
        }
    }

    /// The spender approved for `token`; the zero identity if there is none,
    /// also for a token that does not exist.
    pub fn approved_spender(&self, token: U256) -> (spender: Address)
        ensures
            spender == self@.approvals[token],
    {
        match self.approvals.get(&token) {
            Some(spender) => spender,
            None => Address::zero_address(),
        }
    }

    /// Whether `operator` is approved for all tokens of `owner`.
    pub fn is_approved_for_all(&self, owner: Address, operator: Address) -> (approved: bool)
        ensures
            approved == self@.is_operator(owner, operator),
    {
        match self.operators.get(&Grant { owner, operator }) {
            Some(approved) => approved,
            None => false,
        }
    }

    /// Records `owner` as the owner of `token`; the zero identity takes the
    /// token out of existence.
    pub fn set_owner(&mut self, token: U256, owner: Address)
        ensures
            final(self)@ == old(self)@.with_owner(token, owner),
    {
        if owner.is_zero() {
            self.owners.remove(&token);
        } else {
            self.owners.set(token, owner);
        }
        assert(self@.owners =~= old(self)@.owners.insert(token, owner));
    }

    /// Records `spender` as approved for `token`; the zero identity clears
    /// the approval.
    pub fn set_approved(&mut self, token: U256, spender: Address)
        ensures
            final(self)@ == old(self)@.with_approval(token, spender),
    {
        if spender.is_zero() {
            self.approvals.remove(&token);
        } else {
            self.approvals.set(token, spender);
        }
        assert(self@.approvals =~= old(self)@.approvals.insert(token, spender));
    }

    /// Records whether `operator` is approved for all tokens of `owner`.
    pub fn set_operator_approval(&mut self, owner: Address, operator: Address, approved: bool)
        ensures
            final(self)@ == old(self)@.with_operator(owner, operator, approved),
    {
        if approved {
            self.operators.set(Grant { owner, operator }, true);
        } else {
            self.operators.remove(&Grant { owner, operator });
        }
        assert(self@.operators =~= old(self)@.with_operator(owner, operator, approved).operators);
    }

    /// Records `count` as the balance of `holder`.
    pub fn set_balance(&mut self, holder: Address, count: U256)
        ensures
            final(self)@ == old(self)@.with_balance(holder, count@),
    {
        if count.is_zero() {
            self.balances.remove(&holder);
        } else {
            self.balances.set(holder, count);
        }
        assert(self@.balances =~= old(self)@.balances.insert(holder, count@));
    }

    /// Changes the balance of `holder` by one.
    pub fn adjust_balance(&mut self, holder: Address, delta: BalanceDelta)
        requires
            delta.fits(old(self)@.balances[holder]),
        ensures
            final(self)@ == old(self)@.with_balance(
                holder,
                delta.apply(old(self)@.balances[holder]),
            ),
    {
        let count = self.balance_of(holder);
        let changed = match delta {
            BalanceDelta::Increment => count.checked_succ(),
            BalanceDelta::Decrement => count.checked_pred(),
        };
        if let Some(next) = changed {
            self.set_balance(holder, next);
        }
    }
}

} // verus!
