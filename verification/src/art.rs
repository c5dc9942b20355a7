//! The packaging end of the artwork pipeline: from a finished raster to an
//! inline image.
//!
//! A token's image is rendered from a 64-bit seed in floating point, which
//! is not done here. This module derives the seed and the canonical size,
//! and turns the rendered pixels into PNG, base64 and markup.

use crate::word::{pow2_64, U256};
use vstd::prelude::*;
use vstd::string::*;

verus! {

/// The canonical width of an image, in pixels.
pub const IMAGE_WIDTH: u32 = 800;

/// The canonical height of an image, in pixels.
pub const IMAGE_HEIGHT: u32 = 800;

/// The canonical bound on the iterations spent on one pixel.
pub const MAX_ITERATIONS: u32 = 1000;

/// The number of bytes in a raster of the canonical size: three per pixel.
pub const RASTER_LEN: usize = 1_920_000;

/// What a renderer needs to know to draw the image of a token.
#[derive(Clone, Copy, Debug, PartialEq, Eq, Structural)]
pub struct RenderRequest {
    /// The seed of the pseudo-random generator.
    pub seed: u64,
    /// The width of the image, in pixels.
    pub width: u32,
    /// The height of the image, in pixels.
    pub height: u32,
    /// The bound on the iterations spent on one pixel.
    pub max_iterations: u32,
}

/// The request for the image of `token`: its identifier reduced modulo two
/// to the power 64 as the seed, at the canonical size.
pub open spec fn request_for(token: U256) -> RenderRequest {
    RenderRequest {
        seed: (token@ % pow2_64()) as u64,
        width: IMAGE_WIDTH,
        height: IMAGE_HEIGHT,
        max_iterations: MAX_ITERATIONS,
    }
}

/// Computes [`request_for`].
pub fn render_request(token: U256) -> (request: RenderRequest)
    ensures
        request == request_for(token),
{
    RenderRequest {
        seed: token.wrapping_to_u64(),
        width: IMAGE_WIDTH,
        height: IMAGE_HEIGHT,
        max_iterations: MAX_ITERATIONS,
    }
}

/// The request for an image depends on the low 64 bits of the identifier
/// alone: identifiers that are equal modulo two to the power 64 ask for the
/// same image.
pub proof fn lemma_request_from_low_bits(first: U256, second: U256)
    requires
        first@ % pow2_64() == second@ % pow2_64(),
    ensures
        request_for(first) == request_for(second),
{
}

/// The symbol that stands for the six-bit value `index` in base64.
pub open spec fn base64_symbol(index: int) -> char {
    "ABCDEFGHIJKLMNOPQRSTUVWXYZabcdefghijklmnopqrstuvwxyz0123456789+/"@[index]
}

/// The base64 text of `bytes`, with the standard alphabet and `=` padding:
/// each three bytes give four symbols of six bits each, and a last group of
/// one or two bytes is padded to four characters.
pub open spec fn base64(bytes: Seq<u8>) -> Seq<char>
    decreases bytes.len(),
{
    if bytes.len() == 0 {
        Seq::empty()
    } else if bytes.len() == 1 {
        let a = bytes[0] as int;
        seq![base64_symbol(a / 4), base64_symbol((a % 4) * 16), '=', '=']
    } else if bytes.len() == 2 {
        let (a, b) = (bytes[0] as int, bytes[1] as int);
        seq![
            base64_symbol(a / 4),
            base64_symbol((a % 4) * 16 + b / 16),
            base64_symbol((b % 16) * 4),
            '=',
        ]
    } else {
        let (a, b, c) = (bytes[0] as int, bytes[1] as int, bytes[2] as int);
        seq![
            base64_symbol(a / 4),
            base64_symbol((a % 4) * 16 + b / 16),
            base64_symbol((b % 16) * 4 + c / 64),
            base64_symbol(c % 64),
        ] + base64(bytes.skip(3))
    }
}

/// The PNG file that `image::codecs::png::PngEncoder::write_image` writes
/// for an 8-bit RGB raster of the given width and height, with the encoder
/// as `PngEncoder::new` makes it.
pub uninterp spec fn png_encoding(pixels: Seq<u8>, width: u32, height: u32) -> Seq<u8>;

/// The error type `image::ImageError`, carried from the encoder to the
/// caller without being looked into.
#[verifier::external_type_specification]
#[verifier::external_body]
pub struct ExImageError(image::ImageError);

/// Calls `image::codecs::png::PngEncoder::write_image` on a fresh buffer,
/// with 8-bit RGB as the color type.
///
/// Trusted: the encoder writes a file that depends on the pixels and the
/// size alone, so a success returns the named encoding. It refuses only a
/// width or a height of zero: writing to a buffer in memory does not fail.
/// The encoder panics on a raster of another length than three bytes per
/// pixel, which `requires` excludes.
#[verifier::external_body]
fn encode_png(pixels: &Vec<u8>, width: u32, height: u32) -> (result: Result<
    Vec<u8>,
    image::ImageError,
>)
    requires
        pixels@.len() == width as nat * height as nat * 3,
    ensures
        result matches Ok(file) ==> file@ == png_encoding(pixels@, width, height),
        width > 0 && height > 0 ==> result is Ok,
{
    let mut file: Vec<u8> = Vec::new();
    let encoder = image::codecs::png::PngEncoder::new(&mut file);
    image::ImageEncoder::write_image(encoder, pixels, width, height, image::ColorType::Rgb8)?;
    Ok(file)
}

/// Calls `base64::Engine::encode` on `base64::engine::general_purpose::STANDARD`.
///
/// Trusted: the result is the base64 text of the bytes in the standard
/// alphabet with padding. The call panics if the length of the text
/// overflows `usize`, which `requires` excludes.
#[verifier::external_body]
fn encode_base64(bytes: &Vec<u8>) -> (text: String)
    requires
        bytes@.len() / 3 * 4 + 4 <= usize::MAX,
    ensures
        text@ == base64(bytes@),
{
    base64::Engine::encode(&base64::engine::general_purpose::STANDARD, bytes)
}

/// Why an image could not be packaged.
#[derive(Clone, Copy, Debug, PartialEq, Eq, Structural)]
pub enum PackageError {
    /// The raster does not hold three bytes for each pixel of the
    /// canonical size.
    RasterSize,
    /// The PNG encoder refused the raster.
    Encoding,
    /// The file is too long for its base64 text to be addressed.
    TooLarge,
}

/// The inline reference to a PNG file: the scheme, the media type and the
/// base64 text of the file.
pub open spec fn data_uri_of(file: Seq<u8>) -> Seq<char> {
    "data:image/png;base64,"@ + base64(file)
}

/// The markup that embeds a PNG file in a document.
pub open spec fn image_tag_of(file: Seq<u8>) -> Seq<char> {
    "<img src=\""@ + data_uri_of(file) + "\" alt=\"Julia Set\">"@
}

/// Whether the base64 text of `file` has a length that `usize` holds.
pub open spec fn fits_base64(file: Seq<u8>) -> bool {
    file.len() / 3 <= (usize::MAX - 4) / 4
}

/// The inline reference to `file`, or `TooLarge`.
pub fn data_uri(file: &Vec<u8>) -> (result: Result<String, PackageError>)
    ensures
        match result {
            Ok(text) => fits_base64(file@) && text@ == data_uri_of(file@),
            Err(e) => !fits_base64(file@) && e == PackageError::TooLarge,
        },
{
    if file.len() / 3 > (usize::MAX - 4) / 4 {
        return Err(PackageError::TooLarge);
    }
    let payload = encode_base64(file);
    let mut text = String::from_str("data:image/png;base64,");
    text.append(payload.as_str());
    Ok(text)
}

/// The markup that embeds `file`, or `TooLarge`.
pub fn image_tag(file: &Vec<u8>) -> (result: Result<String, PackageError>)
    ensures
        match result {
            Ok(text) => fits_base64(file@) && text@ == image_tag_of(file@),
            Err(e) => !fits_base64(file@) && e == PackageError::TooLarge,
        },
{
    match data_uri(file) {
        Err(e) => Err(e),
        Ok(reference) => {
            let mut text = String::from_str("<img src=\"");
            text.append(reference.as_str());
            text.append("\" alt=\"Julia Set\">");
            Ok(text)
        },
    }
}

/// What becomes of the encoder's answer: the markup for a file that it
/// wrote, `Encoding` where it refused, `TooLarge` for a file too long.
pub open spec fn packaged(encoded: Result<Vec<u8>, image::ImageError>) -> Result<
    Seq<char>,
    PackageError,
> {
    match encoded {
        Err(_) => Err(PackageError::Encoding),
        Ok(file) => if fits_base64(file@) {
            Ok(image_tag_of(file@))
        } else {
            Err(PackageError::TooLarge)
        },
    }
}

/// Turns the encoder's answer into the markup or the error that
/// [`packaged`] names.
pub fn package_encoded(encoded: Result<Vec<u8>, image::ImageError>) -> (result: Result<
    String,
    PackageError,
>)
    ensures
        match result {
            Ok(text) => packaged(encoded) == Ok::<Seq<char>, PackageError>(text@),
            Err(e) => packaged(encoded) == Err::<Seq<char>, PackageError>(e),
        },
{
    match encoded {
        Err(_) => Err(PackageError::Encoding),
        Ok(file) => image_tag(&file),
    }
}

/// What packaging a raster gives: `RasterSize` for a raster of another
/// length than [`RASTER_LEN`]; else the markup of the PNG encoding of the
/// pixels, or `TooLarge` for a file whose base64 text `usize` cannot
/// address.
pub open spec fn inline_image_of(pixels: Seq<u8>) -> Result<Seq<char>, PackageError> {
    let file = png_encoding(pixels, IMAGE_WIDTH, IMAGE_HEIGHT);
    if pixels.len() != RASTER_LEN {
        Err(PackageError::RasterSize)
    } else if fits_base64(file) {
        Ok(image_tag_of(file))
    } else {
        Err(PackageError::TooLarge)
    }
}

/// Packages a raster of the canonical size as markup with the image inline:
/// the result is what [`inline_image_of`] names, success and errors alike.
pub fn inline_image(pixels: &Vec<u8>) -> (result: Result<String, PackageError>)
    ensures
        match result {
            Ok(text) => inline_image_of(pixels@) == Ok::<Seq<char>, PackageError>(text@),
            Err(e) => inline_image_of(pixels@) == Err::<Seq<char>, PackageError>(e),
        },
{
    if pixels.len() != RASTER_LEN {
        return Err(PackageError::RasterSize);
    }
    let encoded = encode_png(pixels, IMAGE_WIDTH, IMAGE_HEIGHT);
    package_encoded(encoded)
}

} // verus!
