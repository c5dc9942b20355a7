//! A non-fungible-token ledger with a seeded fractal artwork per token.
//!
//! The ledger, the authorization rules and the mint/transfer/burn protocol
//! are verified; rendering is floating point and lives outside this crate,
//! which only packages a finished raster as an inline image.

pub mod address;
pub mod art;
pub mod auth;
pub mod erc721;
pub mod error;
pub mod footprint;
pub mod julia;
pub mod ledger;
pub mod protocol;
pub mod table;
pub mod word;
