//! A collection of tokens: the ledger behind the protocol, kept consistent
//! by every operation.

use crate::address::Address;
use crate::auth::Operation;
use crate::error::ERC721Error;
use crate::ledger::{lemma_empty_consistent, Ledger, LedgerState};
use crate::protocol::{
    lemma_consistent_has_room, lemma_mint_consistent, lemma_step_consistent, outcome, perform,
    step, Event,
};
use crate::word::U256;
use vstd::prelude::*;

verus! {

/// Whether `id` names one of the three interfaces that a collection
/// declares.
pub open spec fn is_supported_interface(id: Seq<u8>) -> bool {
    ||| id == seq![0x01u8, 0xffu8, 0xc9u8, 0xa7u8]
    ||| id == seq![0x80u8, 0xacu8, 0x58u8, 0xcdu8]
    ||| id == seq![0x5bu8, 0x5eu8, 0x13u8, 0x9fu8]
}

/// Decides [`is_supported_interface`].
pub fn declares_interface(interface_id: &Vec<u8>) -> (supported: bool)
    ensures
        supported == is_supported_interface(interface_id@),
{
    if interface_id.len() != 4 {
        return false;
    }
    let (a, b, c, d) = (interface_id[0], interface_id[1], interface_id[2], interface_id[3]);
    let supported = (a == 0x01 && b == 0xff && c == 0xc9 && d == 0xa7) || (a == 0x80 && b == 0xac
        && c == 0x58 && d == 0xcd) || (a == 0x5b && b == 0x5e && c == 0x13 && d == 0x9f);
    proof {
        let id = interface_id@;
        let (first, second, third) = (
            seq![0x01u8, 0xffu8, 0xc9u8, 0xa7u8],
            seq![0x80u8, 0xacu8, 0x58u8, 0xcdu8],
            seq![0x5bu8, 0x5eu8, 0x13u8, 0x9fu8],
        );
        assert(id =~= seq![a, b, c, d]);
        assert(first[0] == 0x01 && first[1] == 0xff && first[2] == 0xc9 && first[3] == 0xa7);
        assert(second[0] == 0x80 && second[1] == 0xac && second[2] == 0x58 && second[3] == 0xcd);
        assert(third[0] == 0x5b && third[1] == 0x5e && third[2] == 0x13 && third[3] == 0x9f);
    }
    supported
}

/// The name and the symbol of a token collection.
#[derive(Clone, Copy, Debug)]
pub struct ERC721Params {
    /// The name of the collection.
    pub name: &'static str,
    /// The short symbol of the collection.
    pub symbol: &'static str,
}

/// A collection of tokens: its configuration and its ledger, which every
/// operation keeps consistent.
pub struct ERC721 {
    params: ERC721Params,
    ledger: Ledger,
}

impl View for ERC721 {
    type V = LedgerState;

    /// The state of the ledger.
    closed spec fn view(&self) -> LedgerState {
        self.ledger@
    }
}

impl ERC721 {
    #[verifier::type_invariant]
    spec fn ledger_consistent(self) -> bool {
        self.ledger@.consistent()
    }

    /// The configured name.
    pub closed spec fn spec_name(&self) -> Seq<char> {
        self.params.name@
    }

    /// The configured symbol.
    pub closed spec fn spec_symbol(&self) -> Seq<char> {
        self.params.symbol@
    }

    /// A collection with the given configuration, in which no token exists.
    pub fn new(params: ERC721Params) -> (collection: ERC721)
        ensures
            collection@ == LedgerState::empty(),
            collection.spec_name() == params.name@,
            collection.spec_symbol() == params.symbol@,
    {
        proof {
            lemma_empty_consistent();
        }
        ERC721 { params, ledger: Ledger::new() }
    }

    /// The tokens of a collection are finitely many: no more than `usize`
    /// counts.
    pub proof fn lemma_tokens_bounded(&self)
        ensures
            self@.tokens().finite(),
            self@.tokens().len() <= usize::MAX,
    {
        self.ledger.lemma_view_bounded();
    }

    /// The ledger, which is consistent.
    pub fn ledger(&self) -> (ledger: &Ledger)
        ensures
            ledger@ == self@,
            self@.consistent(),
    {
        proof {
            use_type_invariant(self);
        }
        &self.ledger
    }

    /// The name of the collection.
    pub fn name(&self) -> (result: Result<String, ERC721Error>)
        ensures
            result is Ok,
            result->Ok_0@ == self.spec_name(),
    {
        Ok(self.params.name.to_owned())
    }

    /// The symbol of the collection.
    pub fn symbol(&self) -> (result: Result<String, ERC721Error>)
        ensures
            result is Ok,
            result->Ok_0@ == self.spec_symbol(),
    {
        Ok(self.params.symbol.to_owned())
    }

    /// The owner of `id`, or `NonexistentToken(id)` if it has none.
    pub fn owner_of(&self, id: U256) -> (result: Result<Address, ERC721Error>)
        ensures
            result == (if self@.token_exists(id) {
                Ok::<Address, ERC721Error>(self@.owners[id])
            } else {
                Err::<Address, ERC721Error>(ERC721Error::NonexistentToken(id))
            }),
    {
        self.ledger.owner_of(id)
    }

    /// The number of tokens that `owner` holds; never fails.
    pub fn balance_of(&self, owner: Address) -> (result: Result<U256, ERC721Error>)
        ensures
            result is Ok,
            result->Ok_0@ == self@.balances[owner],
            result->Ok_0@ == self@.owned_by(owner).len(),
    {
        proof {
            use_type_invariant(self);
        }
        Ok(self.ledger.balance_of(owner))
    }

    /// The spender approved for `id`, the zero identity if there is none;
    /// never fails.
    pub fn get_approved(&self, id: U256) -> (result: Result<Address, ERC721Error>)
        ensures
            result == Ok::<Address, ERC721Error>(self@.approvals[id]),
    {
        Ok(self.ledger.approved_spender(id))
    }

    /// Whether `operator` is approved for all tokens of `owner`; never fails.
    pub fn is_approved_for_all(&self, owner: Address, operator: Address) -> (result: Result<
        bool,
        ERC721Error,
    >)
        ensures
            result == Ok::<bool, ERC721Error>(self@.is_operator(owner, operator)),
    {
        Ok(self.ledger.is_approved_for_all(owner, operator))
    }

    /// Whether the collection declares the interface named by the four
    /// bytes of `interface_id`; never fails.
    pub fn supports_interface(&self, interface_id: Vec<u8>) -> (result: Result<bool, ERC721Error>)
        ensures
            result == Ok::<bool, ERC721Error>(is_supported_interface(interface_id@)),
    {
        Ok(declares_interface(&interface_id))
    }

    /// Carries out `operation` for `caller`; see [`perform`]. The ledger is
    /// consistent before and after, whatever is asked.
    pub fn execute(&mut self, caller: Address, operation: Operation) -> (result: Result<
        Event,
        ERC721Error,
    >)
        ensures
            result == outcome(old(self)@, caller, operation),
            final(self)@ == step(old(self)@, caller, operation),
            old(self)@.consistent(),
            final(self)@.consistent(),
            final(self).spec_name() == old(self).spec_name(),
            final(self).spec_symbol() == old(self).spec_symbol(),
    {
        proof {
            use_type_invariant(&*self);
            self.ledger.lemma_view_bounded();
            lemma_step_consistent(self@, caller, operation);
            lemma_consistent_has_room(self@, caller, operation);
            lemma_empty_consistent();
        }
        let mut ledger = Ledger::new();
        core::mem::swap(&mut self.ledger, &mut ledger);
        let result = perform(&mut ledger, caller, operation);
        self.ledger = ledger;
        result
    }

    /// On behalf of `caller`, approves `spender` for `id`: `NotOwner` unless
    /// the caller owns `id` or is an operator of its owner.
    pub fn approve(&mut self, caller: Address, spender: Address, id: U256) -> (result: Result<
        Event,
        ERC721Error,
    >)
        ensures
            result == outcome(old(self)@, caller, Operation::Approve { token: id, spender }),
            final(self)@ == step(old(self)@, caller, Operation::Approve { token: id, spender }),
            final(self)@.consistent(),
            final(self).spec_name() == old(self).spec_name(),
            final(self).spec_symbol() == old(self).spec_symbol(),
    {
        self.execute(caller, Operation::Approve { token: id, spender })
    }

    /// On behalf of `caller`, approves or revokes `operator` for all tokens
    /// of the caller; always permitted.
    pub fn set_approval_for_all(&mut self, caller: Address, operator: Address, approved: bool) -> (result:
        Result<Event, ERC721Error>)
        ensures
            result == Ok::<Event, ERC721Error>(
                Event::ApprovalForAll { owner: caller, operator, approved },
            ),
            final(self)@ == old(self)@.with_operator(caller, operator, approved),
            final(self)@ == step(
                old(self)@,
                caller,
                Operation::SetOperatorApproval { operator, approved },
            ),
            final(self)@.consistent(),
            final(self).spec_name() == old(self).spec_name(),
            final(self).spec_symbol() == old(self).spec_symbol(),
    {
        self.execute(caller, Operation::SetOperatorApproval { operator, approved })
    }

    /// On behalf of `caller`, moves `id` from `from` to `to`.
    ///
    /// The checks run in a fixed order and the first that fails gives the
    /// error: `NotOwner` unless `from` owns `id`, `InvalidRecipient` if `to` is
    /// the zero identity, `NotAuthorized` unless the caller is `from`, an
    /// operator of `from` or the approved spender of `id`. A refused transfer
    /// changes nothing.
    pub fn transfer_from(&mut self, caller: Address, from: Address, to: Address, id: U256) -> (result:
        Result<Event, ERC721Error>)
        ensures
            result == outcome(old(self)@, caller, Operation::Transfer { token: id, from, to }),
            final(self)@ == step(old(self)@, caller, Operation::Transfer { token: id, from, to }),
            final(self)@.consistent(),
            result is Ok ==> final(self)@.approvals[id] == Address::zero(),
            final(self).spec_name() == old(self).spec_name(),
            final(self).spec_symbol() == old(self).spec_symbol(),
    {
        self.execute(caller, Operation::Transfer { token: id, from, to })
    }

    /// As [`ERC721::transfer_from`]: the recipient is not asked whether it
    /// accepts the token.
    pub fn safe_transfer_from(&mut self, caller: Address, from: Address, to: Address, id: U256) -> (result:
        Result<Event, ERC721Error>)
        ensures
            result == outcome(old(self)@, caller, Operation::Transfer { token: id, from, to }),
            final(self)@ == step(old(self)@, caller, Operation::Transfer { token: id, from, to }),
            final(self)@.consistent(),
            result is Ok ==> final(self)@.approvals[id] == Address::zero(),
            final(self).spec_name() == old(self).spec_name(),
            final(self).spec_symbol() == old(self).spec_symbol(),
    {
        self.transfer_from(caller, from, to, id)
    }

    /// As [`ERC721::transfer_from`]; `data` is for the recipient and is not
    /// read here.
    pub fn safe_transfer_from_with_data(
        &mut self,
        caller: Address,
        from: Address,
        to: Address,
        id: U256,
        data: Vec<u8>,
    ) -> (result: Result<Event, ERC721Error>)
        ensures
            result == outcome(old(self)@, caller, Operation::Transfer { token: id, from, to }),
            final(self)@ == step(old(self)@, caller, Operation::Transfer { token: id, from, to }),
            final(self)@.consistent(),
            result is Ok ==> final(self)@.approvals[id] == Address::zero(),
            final(self).spec_name() == old(self).spec_name(),
            final(self).spec_symbol() == old(self).spec_symbol(),
    {
        self.transfer_from(caller, from, to, id)
    }

    /// Creates `id` for `to`: `InvalidRecipient` if `id` exists or `to` is
    /// the zero identity.
    pub fn _mint(&mut self, to: Address, id: U256) -> (result: Result<Event, ERC721Error>)
        ensures
            result == outcome(old(self)@, to, Operation::Mint { to, token: id }),
            final(self)@ == step(old(self)@, to, Operation::Mint { to, token: id }),
            final(self)@.consistent(),
            result is Ok ==> final(self)@.tokens() == old(self)@.tokens().insert(id),
            result is Ok ==> final(self)@.approvals[id] == Address::zero(),
            result is Err ==> final(self)@ == old(self)@,
            final(self).spec_name() == old(self).spec_name(),
            final(self).spec_symbol() == old(self).spec_symbol(),
    {
        let result = self.execute(to, Operation::Mint { to, token: id });
        proof {
            if result is Ok {
                lemma_mint_consistent(old(self)@, to, id);
            }
        }
        result
    }

    /// Destroys `id`, which `owner` holds: `NotMinted` if `id` does not
    /// exist or `owner` does not own it.
    pub fn _burn(&mut self, owner: Address, id: U256) -> (result: Result<Event, ERC721Error>)
        ensures
            result == outcome(old(self)@, owner, Operation::Burn { owner, token: id }),
            final(self)@ == step(old(self)@, owner, Operation::Burn { owner, token: id }),
            final(self)@.consistent(),
            result is Ok ==> final(self)@.approvals[id] == Address::zero(),
            final(self).spec_name() == old(self).spec_name(),
            final(self).spec_symbol() == old(self).spec_symbol(),
    {
        self.execute(owner, Operation::Burn { owner, token: id })
    }
}

} // verus!
