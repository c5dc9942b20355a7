use julia_nft::error::ERC721Error;
use julia_nft::word::U256;

#[test]
fn fixed_messages() {
    assert_eq!(ERC721Error::NotOwner.message(), b"ERC721: caller is not owner".to_vec());
    assert_eq!(ERC721Error::NotAuthorized.message(), b"ERC721: Not Authorized".to_vec());
    assert_eq!(ERC721Error::InvalidRecipient.message(), b"ERC721: Invalid Recipient".to_vec());
    assert_eq!(
        ERC721Error::NotApprovedForAll.message(),
        b"ERC721: transfer caller is not owner nor approved for all".to_vec()
    );
    assert_eq!(ERC721Error::NotMinted.message(), b"ERC721: not minted".to_vec());
}

#[test]
fn message_names_the_missing_token() {
    assert_eq!(
        ERC721Error::NonexistentToken(U256::from_u64(999)).message(),
        b"ERC721: nonexistent token 999".to_vec()
    );
    assert_eq!(
        ERC721Error::NonexistentToken(U256::zero()).message(),
        b"ERC721: nonexistent token 0".to_vec()
    );
    assert_eq!(
        ERC721Error::NonexistentToken(U256::new(1, 0)).message(),
        b"ERC721: nonexistent token 340282366920938463463374607431768211456".to_vec()
    );
}
