//! The ways in which a ledger operation is refused.

use crate::word::{decimal, U256};
use vstd::prelude::*;
use vstd::string::*;

verus! {

/// Why an operation was refused.
#[derive(Clone, Copy, Debug, PartialEq, Eq, Structural)]
pub enum ERC721Error {
    /// The caller is neither the owner of the token nor an operator of the
    /// owner, or the named source does not own the token.
    NotOwner,
    /// The caller is not the source, not an operator of the source and not
    /// the approved spender of the token.
    NotAuthorized,
    /// The destination is the zero identity, or the token to mint exists.
    InvalidRecipient,
    /// Kept for operator checks that fail apart from ownership.
    NotApprovedForAll,
    /// The token with this identifier has no owner.
    NonexistentToken(U256),
    /// The token to burn does not exist or is not owned as claimed.
    NotMinted,
}

impl ERC721Error {
    /// The text that describes the error, as bytes: a fixed text for each
    /// kind, followed by the identifier in decimal for a token that does not
    /// exist.
    pub open spec fn message_bytes(self) -> Seq<u8> {
        match self {
            ERC721Error::NonexistentToken(id) => "ERC721: nonexistent token ".spec_bytes()
                + decimal(id@),
            ERC721Error::NotOwner => "ERC721: caller is not owner".spec_bytes(),
            ERC721Error::NotAuthorized => "ERC721: Not Authorized".spec_bytes(),
            ERC721Error::InvalidRecipient => "ERC721: Invalid Recipient".spec_bytes(),
            ERC721Error::NotApprovedForAll => "ERC721: transfer caller is not owner nor approved for all".spec_bytes(),
            ERC721Error::NotMinted => "ERC721: not minted".spec_bytes(),
        }
    }

    /// The text that describes the error, for the host to report.
    pub fn message(&self) -> (bytes: Vec<u8>)
        ensures
            bytes@ == self.message_bytes(),
    {
        match self {
            ERC721Error::NonexistentToken(id) => {
                let mut bytes = "ERC721: nonexistent token ".as_bytes_vec();
                let mut number = id.to_decimal();
                bytes.append(&mut number);
                bytes
            },
            ERC721Error::NotOwner => "ERC721: caller is not owner".as_bytes_vec(),
            ERC721Error::NotAuthorized => "ERC721: Not Authorized".as_bytes_vec(),
            ERC721Error::InvalidRecipient => "ERC721: Invalid Recipient".as_bytes_vec(),
            ERC721Error::NotApprovedForAll => "ERC721: transfer caller is not owner nor approved for all".as_bytes_vec(),
            ERC721Error::NotMinted => "ERC721: not minted".as_bytes_vec(),
        }
    }
}

} // verus!
