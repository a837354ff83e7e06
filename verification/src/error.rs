use vstd::prelude::*;

verus! {

/// Why a text is not an address.
#[derive(Clone, Copy, Debug, PartialEq, Eq, Structural)]
pub enum AddressFault {
    /// The text is not a base-58 string.
    Undecodable,
    /// The text decodes, but to `len` bytes instead of 32.
    WrongLength { len: usize },
}

/// Which address of a request was found invalid.
#[derive(Clone, Copy, Debug, PartialEq, Eq, Structural)]
pub enum AddressRole {
    Recipient,
    Mint,
    Reference,
}

/// Which configured value a request needed and did not find.
#[derive(Clone, Copy, Debug, PartialEq, Eq, Structural)]
pub enum ConfigKey {
    Recipient,
    MainnetUsdc,
    DevnetUsdc,
}

/// Every way in which building or rendering a payment link can fail.
#[derive(Clone, Copy, Debug, PartialEq, Eq, Structural)]
pub enum LinkError {
    /// An address does not decode to exactly 32 bytes.
    InvalidAddress { role: AddressRole, fault: AddressFault },
    /// The amount is not an exact decimal, or is negative.
    InvalidAmount,
    /// The amount has `scale` fractional digits where at most `max` are allowed.
    TooManyDecimals { scale: u32, max: u32 },
    /// More than one way of choosing the token was used.
    ConflictingTokenOptions,
    /// A value that the request left out is not configured either.
    MissingConfiguration { key: ConfigKey },
    /// The content does not fit into the largest symbol.
    UnencodableContent,
    /// The raster could not be encoded as an image file.
    RenderFailure,
}

} // verus!
