//! The token contract: a collection whose tokens are issued in sequence,
//! each with an image drawn from its identifier.

use crate::address::Address;
use crate::art::{
    inline_image, inline_image_of, render_request, request_for, PackageError, RenderRequest,
};
use crate::auth::{verdict, Operation};
use crate::erc721::{ERC721Params, ERC721};
use crate::error::ERC721Error;
use crate::ledger::{lemma_empty_consistent, Ledger, LedgerState};
use crate::protocol::{has_room, lemma_step_consistent, outcome, perform, step, Event};
use crate::word::{
    lemma_from_nat_of_view, lemma_from_nat_view, lemma_view_injective, pow2_128, U256,
};
use vstd::pervasive::unreached;
use vstd::prelude::*;

verus! {

/// The mathematical content of a [`Julia`]: the ledger and the counter that
/// names the next token.
pub struct JuliaState {
    /// The state of the ledger.
    pub ledger: LedgerState,
    /// The number of tokens issued so far, which is the next identifier.
    pub next_token_id: nat,
}

/// A call on the contract.
#[derive(Clone, Copy, Debug, PartialEq, Eq, Structural)]
pub enum Call {
    /// Issue the next token to the caller.
    Mint,
    /// Approve `spender` for `id`.
    Approve { spender: Address, id: U256 },
    /// Approve or revoke `operator` for all tokens of the caller.
    SetApprovalForAll { operator: Address, approved: bool },
    /// Move `id` from `from` to `to`.
    TransferFrom { from: Address, to: Address, id: U256 },
}

impl JuliaState {
    /// The state of a new contract: nothing issued, nothing approved.
    pub open spec fn initial() -> JuliaState {
        JuliaState { ledger: LedgerState::empty(), next_token_id: 0 }
    }

    /// The identifier that the next mint assigns.
    pub open spec fn next_token(self) -> U256 {
        U256::from_nat(self.next_token_id)
    }

    /// The invariant of the contract: the ledger is consistent, and the
    /// tokens that exist are those with an identifier below the counter.
    pub open spec fn well_formed(self) -> bool {
        &&& self.ledger.consistent()
        &&& self.next_token_id <= U256::max_value() + 1
        &&& forall|t: U256| self.ledger.token_exists(t) <==> t@ < self.next_token_id
        &&& self.ledger.tokens().len() == self.next_token_id
    }

    /// The ledger operation that `call` by `caller` asks for.
    pub open spec fn operation_of(self, caller: Address, call: Call) -> Operation {
        match call {
            Call::Mint => Operation::Mint { to: caller, token: self.next_token() },
            Call::Approve { spender, id } => Operation::Approve { token: id, spender },
            Call::SetApprovalForAll { operator, approved } => Operation::SetOperatorApproval {
                operator,
                approved,
            },
            Call::TransferFrom { from, to, id } => Operation::Transfer { token: id, from, to },
        }
    }

    /// Whether `call` by `caller` is permitted.
    pub open spec fn permits(self, caller: Address, call: Call) -> bool {
        verdict(self.ledger, caller, self.operation_of(caller, call)) is Ok
    }

    /// What `call` by `caller` returns: the event to emit, or the error.
    pub open spec fn answer(self, caller: Address, call: Call) -> Result<Event, ERC721Error> {
        outcome(self.ledger, caller, self.operation_of(caller, call))
    }

    /// The state after `call` by `caller`: the ledger takes one step, and a
    /// mint that is permitted advances the counter by one.
    pub open spec fn after(self, caller: Address, call: Call) -> JuliaState {
        JuliaState {
            ledger: step(self.ledger, caller, self.operation_of(caller, call)),
            next_token_id: if call is Mint && self.permits(caller, call) {
                self.next_token_id + 1
            } else {
                self.next_token_id
            },
        }
    }
}

/// The initial state is well formed.
pub proof fn lemma_initial_well_formed()
    ensures
        JuliaState::initial().well_formed(),
{
    lemma_empty_consistent();
    assert(LedgerState::empty().tokens() =~= Set::<U256>::empty());
}

/// A mint that is permitted finds the counter within the range of the
/// identifiers: past the range the next identifier would wrap to zero,
/// which exists by then.
proof fn lemma_permitted_mint_in_range(state: JuliaState, caller: Address)
    requires
        state.well_formed(),
        state.permits(caller, Call::Mint),
    ensures
        state.next_token()@ == state.next_token_id,
        !state.ledger.token_exists(state.next_token()),
        caller != Address::zero(),
{
    if state.next_token_id > U256::max_value() {
        let p = pow2_128();
        assert((p * p) / p == p && (p * p) % p == 0) by (nonlinear_arith)
            requires
                p > 0,
        ;
        assert(state.ledger.token_exists(state.next_token()));
    } else {
        lemma_from_nat_view(state.next_token_id);
    }
}

/// Every call keeps a well-formed state well formed: the ledger stays
/// consistent, and the counter never falls.
pub proof fn lemma_call_well_formed(state: JuliaState, caller: Address, call: Call)
    requires
        state.well_formed(),
    ensures
        state.after(caller, call).well_formed(),
        state.after(caller, call).next_token_id >= state.next_token_id,
{
    let next = state.after(caller, call);
    lemma_step_consistent(state.ledger, caller, state.operation_of(caller, call));
    if state.permits(caller, call) {
        if call is Mint {
            let token = state.next_token();
            lemma_permitted_mint_in_range(state, caller);
            assert(next.ledger.tokens() =~= state.ledger.tokens().insert(token));
            assert forall|t: U256| next.ledger.token_exists(t) <==> t@ < next.next_token_id by {
                if t@ == token@ {
                    lemma_view_injective(t, token);
                } else {
                    assert(next.ledger.token_exists(t) == state.ledger.token_exists(t));
                }
            }
        } else {
            assert(next.ledger.tokens() =~= state.ledger.tokens());
            assert forall|t: U256| next.ledger.token_exists(t) <==> t@ < next.next_token_id by {
                assert(next.ledger.token_exists(t) == state.ledger.token_exists(t));
            }
        }
    }
}

/// One call in the history of a contract: who called, and what.
pub struct Invocation {
    /// The identity of the caller.
    pub caller: Address,
    /// The call.
    pub call: Call,
}

/// The state of a contract that has handled `history` since it was made.
pub open spec fn state_after(history: Seq<Invocation>) -> JuliaState
    decreases history.len(),
{
    if history.len() == 0 {
        JuliaState::initial()
    } else {
        state_after(history.drop_last()).after(history.last().caller, history.last().call)
    }
}

/// Whether the call at position `k` of `history` is a mint that was
/// permitted.
pub open spec fn is_mint_at(history: Seq<Invocation>, k: int) -> bool {
    &&& 0 <= k < history.len()
    &&& history[k].call is Mint
    &&& state_after(history.take(k)).permits(history[k].caller, Call::Mint)
}

/// The identifier that the permitted mint at position `k` assigned.
pub open spec fn minted_at(history: Seq<Invocation>, k: int) -> U256 {
    state_after(history.take(k)).next_token()
}

/// The number of permitted mints in `history`.
pub open spec fn mints_in(history: Seq<Invocation>) -> nat
    decreases history.len(),
{
    if history.len() == 0 {
        0
    } else {
        mints_in(history.drop_last()) + if is_mint_at(history, history.len() - 1) {
            1nat
        } else {
            0nat
        }
    }
}

/// After any history the state is well formed, and the counter is the
/// number of permitted mints.
pub proof fn lemma_counter_counts_mints(history: Seq<Invocation>)
    ensures
        state_after(history).well_formed(),
        state_after(history).next_token_id == mints_in(history),
    decreases history.len(),
{
    if history.len() == 0 {
        lemma_initial_well_formed();
    } else {
        let earlier = history.drop_last();
        lemma_counter_counts_mints(earlier);
        lemma_call_well_formed(state_after(earlier), history.last().caller, history.last().call);
        assert(history.take(history.len() - 1) =~= earlier);
    }
}

/// A longer history holds at least as many mints as each of its prefixes.
proof fn lemma_mints_grow(history: Seq<Invocation>, k: int)
    requires
        0 <= k <= history.len(),
    ensures
        mints_in(history.take(k)) <= mints_in(history),
    decreases history.len() - k,
{
    if k == history.len() {
        assert(history.take(k) =~= history);
    } else {
        let earlier = history.drop_last();
        lemma_mints_grow(earlier, k);
        assert(earlier.take(k) =~= history.take(k));
    }
}

/// The mint at position `k` counts in every history that goes beyond it.
proof fn lemma_mint_counted(history: Seq<Invocation>, k: int)
    requires
        is_mint_at(history, k),
    ensures
        mints_in(history.take(k + 1)) == mints_in(history.take(k)) + 1,
{
    let upto = history.take(k + 1);
    assert(upto.drop_last() =~= history.take(k));
    assert(upto.take(k) =~= history.take(k));
    assert(upto[k] == history[k]);
    assert(is_mint_at(upto, k));
}

/// Mint uniqueness, first half: the permitted mint that comes after `n`
/// others assigns the identifier `n`, so the first assigns zero and the
/// n-th assigns n - 1.
pub proof fn lemma_mint_assigns_count(history: Seq<Invocation>, k: int)
    requires
        is_mint_at(history, k),
    ensures
        minted_at(history, k)@ == mints_in(history.take(k)),
        state_after(history.take(k)).answer(history[k].caller, Call::Mint) == Ok::<
            Event,
            ERC721Error,
        >(
            Event::Transfer {
                from: Address::zero(),
                to: history[k].caller,
                id: minted_at(history, k),
            },
        ),
        !state_after(history.take(k)).ledger.token_exists(minted_at(history, k)),
{
    lemma_counter_counts_mints(history.take(k));
    lemma_permitted_mint_in_range(state_after(history.take(k)), history[k].caller);
}

/// Mint uniqueness, second half: two permitted mints at different positions
/// of a history never assign the same identifier.
pub proof fn lemma_mints_distinct(history: Seq<Invocation>, i: int, j: int)
    requires
        is_mint_at(history, i),
        is_mint_at(history, j),
        i != j,
    ensures
        minted_at(history, i) != minted_at(history, j),
{
    let (first, second) = if i < j { (i, j) } else { (j, i) };
    lemma_mint_assigns_count(history, first);
    lemma_mint_assigns_count(history, second);
    lemma_mint_counted(history, first);
    lemma_mints_grow(history.take(second), first + 1);
    assert(history.take(second).take(first + 1) =~= history.take(first + 1));
}

/// Why the image of a token could not be produced.
#[derive(Clone, Copy, Debug, PartialEq, Eq, Structural)]
pub enum MetadataError {
    /// The ledger refused: the token does not exist.
    Token(ERC721Error),
    /// The raster could not be packaged.
    Image(PackageError),
}

/// Issues the token numbered `next` to `caller` on `ledger`, which holds at
/// least what the ledger records of that token and of the caller, and
/// returns the event with the counter that follows.
pub fn issue(ledger: &mut Ledger, next: U256, caller: Address) -> (result: Result<
    (Event, U256),
    ERC721Error,
>)
    requires
        has_room(old(ledger)@, caller, Operation::Mint { to: caller, token: next }),
        next@ < U256::max_value(),
    ensures
        final(ledger)@ == step(old(ledger)@, caller, Operation::Mint { to: caller, token: next }),
        match result {
            Ok((event, counter)) => {
                &&& outcome(old(ledger)@, caller, Operation::Mint { to: caller, token: next })
                    == Ok::<Event, ERC721Error>(event)
                &&& counter@ == next@ + 1
            },
            Err(e) => outcome(old(ledger)@, caller, Operation::Mint { to: caller, token: next })
                == Err::<Event, ERC721Error>(e),
        },
{
    match perform(ledger, caller, Operation::Mint { to: caller, token: next }) {
        Err(e) => Err(e),
        Ok(event) => match next.checked_succ() {
            Some(counter) => Ok((event, counter)),
            None => unreached(),
        },
    }
}

/// What a renderer needs to draw the image of `token_id`, or
/// `NonexistentToken` where `ledger` records no owner for it.
pub fn render_request_on(ledger: &Ledger, token_id: U256) -> (result: Result<
    RenderRequest,
    ERC721Error,
>)
    ensures
        result == (if ledger@.token_exists(token_id) {
            Ok::<RenderRequest, ERC721Error>(request_for(token_id))
        } else {
            Err::<RenderRequest, ERC721Error>(ERC721Error::NonexistentToken(token_id))
        }),
{
    match ledger.owner_of(token_id) {
        Err(e) => Err(e),
        Ok(_) => Ok(render_request(token_id)),
    }
}

/// What the image query gives in `state` for `token_id` and the rendered
/// `pixels`: `NonexistentToken` for a token without owner, else what
/// packaging the pixels gives. Nothing else of the state matters.
pub open spec fn token_uri_of(state: LedgerState, token_id: U256, pixels: Seq<u8>) -> Result<
    Seq<char>,
    MetadataError,
> {
    if !state.token_exists(token_id) {
        Err(MetadataError::Token(ERC721Error::NonexistentToken(token_id)))
    } else {
        match inline_image_of(pixels) {
            Ok(text) => Ok(text),
            Err(e) => Err(MetadataError::Image(e)),
        }
    }
}

/// Determinism: for a token that exists, the image query gives the same in
/// any two states, whatever else they hold, and its answer is that of
/// packaging the pixels; for a token that does not exist it fails.
pub proof fn lemma_token_uri_determined(
    first: LedgerState,
    second: LedgerState,
    token_id: U256,
    pixels: Seq<u8>,
)
    requires
        first.token_exists(token_id),
        second.token_exists(token_id),
    ensures
        token_uri_of(first, token_id, pixels) == token_uri_of(second, token_id, pixels),
        token_uri_of(first, token_id, pixels) is Ok <==> inline_image_of(pixels) is Ok,
        token_uri_of(LedgerState::empty(), token_id, pixels) is Err,
{
}

/// The markup with the image of `token_id` inline, made from the rendered
/// `pixels`: rows of RGB bytes at the canonical size. The result is what
/// [`token_uri_of`] names, success and errors alike.
pub fn token_uri_on(ledger: &Ledger, token_id: U256, pixels: &Vec<u8>) -> (result: Result<
    String,
    MetadataError,
>)
    ensures
        match result {
            Ok(text) => token_uri_of(ledger@, token_id, pixels@) == Ok::<Seq<char>, MetadataError>(
                text@,
            ),
            Err(e) => token_uri_of(ledger@, token_id, pixels@) == Err::<Seq<char>, MetadataError>(
                e,
            ),
        },
{
    match ledger.owner_of(token_id) {
        Err(e) => Err(MetadataError::Token(e)),
        Ok(_) => match inline_image(pixels) {
            Ok(text) => Ok(text),
            Err(e) => Err(MetadataError::Image(e)),
        },
    }
}

/// The token contract: a collection named "Julia" and the counter of the
/// tokens issued.
pub struct Julia {
    erc721: ERC721,
    token_id: U256,
}

impl View for Julia {
    type V = JuliaState;

    /// The ledger and the counter.
    closed spec fn view(&self) -> JuliaState {
        JuliaState { ledger: self.erc721@, next_token_id: self.token_id@ }
    }
}

impl Julia {
    #[verifier::type_invariant]
    spec fn issued_in_sequence(self) -> bool {
        &&& self@.well_formed()
        &&& self.erc721.spec_name() == "Julia"@
        &&& self.erc721.spec_symbol() == "JUL"@
    }

    /// A contract that has issued nothing.
    pub fn new() -> (contract: Julia)
        ensures
            contract@ == JuliaState::initial(),
    {
        proof {
            lemma_initial_well_formed();
        }
        Julia {
            erc721: ERC721::new(ERC721Params { name: "Julia", symbol: "JUL" }),
            token_id: U256::zero(),
        }
    }

    fn into_parts(&mut self) -> (parts: (ERC721, U256))
        ensures
            parts.0@ == old(self)@.ledger,
            parts.1@ == old(self)@.next_token_id,
            parts.0.spec_name() == "Julia"@,
            parts.0.spec_symbol() == "JUL"@,
            old(self)@.well_formed(),
    {
        proof {
            use_type_invariant(&*self);
        }
        let mut taken = Julia::new();
        core::mem::swap(self, &mut taken);
        let Julia { erc721, token_id } = taken;
        (erc721, token_id)
    }

    /// The collection, for its queries; the state of the contract is well
    /// formed.
    pub fn erc721(&self) -> (collection: &ERC721)
        ensures
            collection@ == self@.ledger,
            collection.spec_name() == "Julia"@,
            collection.spec_symbol() == "JUL"@,
            self@.well_formed(),
    {
        proof {
            use_type_invariant(self);
        }
        &self.erc721
    }

    /// The identifier that the next mint assigns: the number of tokens
    /// issued so far.
    pub fn next_token_id(&self) -> (id: U256)
        ensures
            id@ == self@.next_token_id,
            id == self@.next_token(),
    {
        proof {
            lemma_from_nat_of_view(self.token_id);
        }
        self.token_id
    }

    /// Issues the next token to `caller` and advances the counter.
    ///
    /// Refused with `InvalidRecipient`, and without any change, exactly
    /// when the caller is the zero identity.
    pub fn mint(&mut self, caller: Address) -> (result: Result<Event, ERC721Error>)
        ensures
            result == old(self)@.answer(caller, Call::Mint),
            final(self)@ == old(self)@.after(caller, Call::Mint),
            final(self)@.well_formed(),
            match result {
                Ok(event) => {
                    &&& caller != Address::zero()
                    &&& event == (Event::Transfer {
                        from: Address::zero(),
                        to: caller,
                        id: old(self)@.next_token(),
                    })
                    &&& old(self)@.next_token()@ == old(self)@.next_token_id
                    &&& !old(self)@.ledger.token_exists(old(self)@.next_token())
                    &&& final(self)@.next_token_id == old(self)@.next_token_id + 1
                },
                Err(e) => {
                    &&& caller == Address::zero()
                    &&& e == ERC721Error::InvalidRecipient
                    &&& final(self)@ == old(self)@
                },
            },
    {
        let (mut erc721, token_id) = self.into_parts();
        proof {
            lemma_from_nat_of_view(token_id);
            lemma_call_well_formed(old(self)@, caller, Call::Mint);
            erc721.lemma_tokens_bounded();
        }
        let result = erc721._mint(caller, token_id);
        let next = match result {
            Ok(_) => match token_id.checked_succ() {
                Some(next) => next,
                None => unreached(),
            },
            Err(_) => token_id,
        };
        *self = Julia { erc721, token_id: next };
        result
    }

    /// On behalf of `caller`, approves `spender` for `id`; see
    /// [`ERC721::approve`].
    pub fn approve(&mut self, caller: Address, spender: Address, id: U256) -> (result: Result<
        Event,
        ERC721Error,
    >)
        ensures
            result == old(self)@.answer(caller, Call::Approve { spender, id }),
            final(self)@ == old(self)@.after(caller, Call::Approve { spender, id }),
            final(self)@.well_formed(),
    {
        let (mut erc721, token_id) = self.into_parts();
        proof {
            lemma_call_well_formed(old(self)@, caller, Call::Approve { spender, id });
        }
        let result = erc721.approve(caller, spender, id);
        *self = Julia { erc721, token_id };
        result
    }

    /// On behalf of `caller`, approves or revokes `operator` for all tokens
    /// of the caller; see [`ERC721::set_approval_for_all`].
    pub fn set_approval_for_all(&mut self, caller: Address, operator: Address, approved: bool) -> (result:
        Result<Event, ERC721Error>)
        ensures
            result == old(self)@.answer(caller, Call::SetApprovalForAll { operator, approved }),
            final(self)@ == old(self)@.after(caller, Call::SetApprovalForAll { operator, approved }),
            final(self)@.well_formed(),
    {
        let (mut erc721, token_id) = self.into_parts();
        proof {
            lemma_call_well_formed(
                old(self)@,
                caller,
                Call::SetApprovalForAll { operator, approved },
            );
        }
        let result = erc721.set_approval_for_all(caller, operator, approved);
        *self = Julia { erc721, token_id };
        result
    }

    /// On behalf of `caller`, moves `id` from `from` to `to`; see
    /// [`ERC721::transfer_from`].
    pub fn transfer_from(&mut self, caller: Address, from: Address, to: Address, id: U256) -> (result:
        Result<Event, ERC721Error>)
        ensures
            result == old(self)@.answer(caller, Call::TransferFrom { from, to, id }),
            final(self)@ == old(self)@.after(caller, Call::TransferFrom { from, to, id }),
            final(self)@.well_formed(),
    {
        let (mut erc721, token_id) = self.into_parts();
        proof {
            lemma_call_well_formed(old(self)@, caller, Call::TransferFrom { from, to, id });
        }
        let result = erc721.transfer_from(caller, from, to, id);
        *self = Julia { erc721, token_id };
        result
    }

    /// As [`Julia::transfer_from`].
    pub fn safe_transfer_from(&mut self, caller: Address, from: Address, to: Address, id: U256) -> (result:
        Result<Event, ERC721Error>)
        ensures
            result == old(self)@.answer(caller, Call::TransferFrom { from, to, id }),
            final(self)@ == old(self)@.after(caller, Call::TransferFrom { from, to, id }),
            final(self)@.well_formed(),
    {
        self.transfer_from(caller, from, to, id)
    }

    /// As [`Julia::transfer_from`]; `data` is not read.
    pub fn safe_transfer_from_with_data(
        &mut self,
        caller: Address,
        from: Address,
        to: Address,
        id: U256,
        data: Vec<u8>,
    ) -> (result: Result<Event, ERC721Error>)
        ensures
            result == old(self)@.answer(caller, Call::TransferFrom { from, to, id }),
            final(self)@ == old(self)@.after(caller, Call::TransferFrom { from, to, id }),
            final(self)@.well_formed(),
    {
        self.transfer_from(caller, from, to, id)
    }

    /// What a renderer needs to draw the image of `token_id`, or
    /// `NonexistentToken` for a token that does not exist.
    pub fn render_request(&self, token_id: U256) -> (result: Result<RenderRequest, ERC721Error>)
        ensures
            result == (if self@.ledger.token_exists(token_id) {
                Ok::<RenderRequest, ERC721Error>(request_for(token_id))
            } else {
                Err::<RenderRequest, ERC721Error>(ERC721Error::NonexistentToken(token_id))
            }),
    {
        render_request_on(self.erc721.ledger(), token_id)
    }

    /// The markup with the image of `token_id` inline, made from the
    /// rendered `pixels`: rows of RGB bytes at the canonical size. The result
    /// is what [`token_uri_of`] names, success and errors alike; nothing
    /// changes.
    pub fn token_uri(&self, token_id: U256, pixels: &Vec<u8>) -> (result: Result<
        String,
        MetadataError,
    >)
        ensures
            match result {
                Ok(text) => token_uri_of(self@.ledger, token_id, pixels@) == Ok::<
                    Seq<char>,
                    MetadataError,
                >(text@),
                Err(e) => token_uri_of(self@.ledger, token_id, pixels@) == Err::<
                    Seq<char>,
                    MetadataError,
                >(e),
            },
    {
        token_uri_on(self.erc721.ledger(), token_id, pixels)
    }
}

} // verus!
