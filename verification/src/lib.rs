//! Payment link construction: validation, normalization and deterministic
//! encoding of a payment request into a URI, and its rendering as a
//! two-tone raster symbol.

pub mod error;
pub mod address;
pub mod amount;
pub mod link;
pub mod qr;
pub mod query;
pub mod reference;
pub mod request;
pub mod token;
pub mod uri;
