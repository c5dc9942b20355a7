use julia_nft::address::Address;
use julia_nft::art::{
    data_uri, image_tag, inline_image, render_request, PackageError, RenderRequest, IMAGE_HEIGHT,
    IMAGE_WIDTH, MAX_ITERATIONS, RASTER_LEN,
};
use julia_nft::error::ERC721Error;
use julia_nft::julia::{Julia, MetadataError};
use julia_nft::word::U256;

use base64::Engine;

fn raster(seed: u32) -> Vec<u8> {
    let mut state = seed;
    (0..RASTER_LEN)
        .map(|i| {
            state = state.wrapping_mul(1664525).wrapping_add(1013904223);
            if (i / 3) % 7 == 0 {
                0
            } else {
                (state >> 24) as u8
            }
        })
        .collect()
}

#[test]
fn canonical_size() {
    assert_eq!(IMAGE_WIDTH, 800);
    assert_eq!(IMAGE_HEIGHT, 800);
    assert_eq!(MAX_ITERATIONS, 1000);
    assert_eq!(RASTER_LEN, 800 * 800 * 3);
}

#[test]
fn seed_is_the_identifier_wrapped_to_64_bits() {
    let request = |seed| RenderRequest { seed, width: 800, height: 800, max_iterations: 1000 };
    assert_eq!(render_request(U256::zero()), request(0));
    assert_eq!(render_request(U256::from_u64(17)), request(17));
    assert_eq!(render_request(U256::from_u64(u64::MAX)), request(u64::MAX));
    assert_eq!(render_request(U256::new(0, (1u128 << 64) + 5)), request(5));
    assert_eq!(render_request(U256::new(9, 3)), request(3));
}

#[test]
fn base64_of_the_standard_vectors() {
    let cases: [(&[u8], &str); 7] = [
        (b"", ""),
        (b"f", "Zg=="),
        (b"fo", "Zm8="),
        (b"foo", "Zm9v"),
        (b"foob", "Zm9vYg=="),
        (b"fooba", "Zm9vYmE="),
        (b"foobar", "Zm9vYmFy"),
    ];
    for (bytes, text) in cases {
        assert_eq!(
            data_uri(&bytes.to_vec()),
            Ok(format!("data:image/png;base64,{}", text))
        );
    }
    assert_eq!(
        data_uri(&vec![0xfb, 0xff, 0xfe, 0x00, 0x3e, 0x3f]),
        Ok(String::from("data:image/png;base64,+//+AD4/"))
    );
}

#[test]
fn markup_wraps_the_reference() {
    assert_eq!(
        image_tag(&b"foo".to_vec()),
        Ok(String::from("<img src=\"data:image/png;base64,Zm9v\" alt=\"Julia Set\">"))
    );
    assert_eq!(
        image_tag(&Vec::new()),
        Ok(String::from("<img src=\"data:image/png;base64,\" alt=\"Julia Set\">"))
    );
}

#[test]
fn raster_of_another_size_is_refused() {
    assert_eq!(inline_image(&Vec::new()), Err(PackageError::RasterSize));
    assert_eq!(inline_image(&vec![0; RASTER_LEN - 1]), Err(PackageError::RasterSize));
    assert_eq!(inline_image(&vec![0; RASTER_LEN + 3]), Err(PackageError::RasterSize));
}

#[test]
fn inline_image_holds_a_png_of_the_pixels() {
    let pixels = raster(1);
    let text = inline_image(&pixels).unwrap();
    let prefix = "<img src=\"data:image/png;base64,";
    let suffix = "\" alt=\"Julia Set\">";
    assert!(text.starts_with(prefix));
    assert!(text.ends_with(suffix));
    let payload = &text[prefix.len()..text.len() - suffix.len()];
    let file = base64::engine::general_purpose::STANDARD.decode(payload).unwrap();
    assert_eq!(&file[..8], &[0x89, b'P', b'N', b'G', 0x0d, 0x0a, 0x1a, 0x0a]);
    let decoded = image::load_from_memory(&file).unwrap().to_rgb8();
    assert_eq!(decoded.width(), 800);
    assert_eq!(decoded.height(), 800);
    assert_eq!(decoded.into_raw(), pixels);
}

#[test]
fn same_pixels_give_the_same_text() {
    let first = inline_image(&raster(2)).unwrap();
    let second = inline_image(&raster(2)).unwrap();
    assert_eq!(first, second);
    let other = inline_image(&raster(3)).unwrap();
    assert_ne!(first, other);
}

#[test]
fn metadata_of_a_token() {
    let mut contract = Julia::new();
    let pixels = vec![0u8; RASTER_LEN];
    assert_eq!(
        contract.token_uri(U256::zero(), &pixels),
        Err(MetadataError::Token(ERC721Error::NonexistentToken(U256::zero())))
    );
    assert_eq!(
        contract.render_request(U256::zero()),
        Err(ERC721Error::NonexistentToken(U256::zero()))
    );
    contract.mint(Address::new(0, 1)).unwrap();
    assert_eq!(
        contract.render_request(U256::zero()),
        Ok(RenderRequest { seed: 0, width: 800, height: 800, max_iterations: 1000 })
    );
    assert_eq!(
        contract.token_uri(U256::zero(), &vec![0u8; 12]),
        Err(MetadataError::Image(PackageError::RasterSize))
    );
    // A missing token is reported before a raster of the wrong size.
    assert_eq!(
        contract.token_uri(U256::from_u64(1), &vec![0u8; 12]),
        Err(MetadataError::Token(ERC721Error::NonexistentToken(U256::from_u64(1))))
    );
    let first = contract.token_uri(U256::zero(), &pixels).unwrap();
    let second = contract.token_uri(U256::zero(), &pixels).unwrap();
    assert_eq!(first, second);
    assert_eq!(Ok(first), inline_image(&pixels));
    assert_eq!(contract.erc721().owner_of(U256::zero()), Ok(Address::new(0, 1)));
    assert_eq!(contract.next_token_id(), U256::from_u64(1));
}
