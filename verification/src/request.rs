use vstd::prelude::*;
use crate::token::{DirectoryTexts, TokenDirectory};

verus! {

/// A request for a payment link, as a caller states it.
#[derive(Clone, Debug, PartialEq, Eq)]
pub struct LinkRequest {
    /// The recipient's address; where it is left out the configured one is used.
    pub recipient: Option<String>,
    /// The amount as a decimal string, such as `12.34`.
    pub amount: Option<String>,
    /// The address of the token's mint. Excludes the two flags below.
    pub spl_token: Option<String>,
    /// Pay in USDC as known on the main network.
    pub use_usdc_mainnet: Option<bool>,
    /// Pay in USDC as known on the development network.
    pub use_usdc_devnet: Option<bool>,
    /// Texts for the wallet to show.
    pub label: Option<String>,
    pub message: Option<String>,
    pub memo: Option<String>,
    /// The largest number of fractional digits that the amount may have.
    pub max_decimals: Option<u32>,
}

/// A `LinkRequest` with its strings as texts.
pub struct RequestTexts {
    pub recipient: Option<Seq<char>>,
    pub amount: Option<Seq<char>>,
    pub spl_token: Option<Seq<char>>,
    pub use_usdc_mainnet: Option<bool>,
    pub use_usdc_devnet: Option<bool>,
    pub label: Option<Seq<char>>,
    pub message: Option<Seq<char>>,
    pub memo: Option<Seq<char>>,
    pub max_decimals: Option<u32>,
}

impl View for LinkRequest {
    type V = RequestTexts;

    open spec fn view(&self) -> RequestTexts {
        RequestTexts {
            recipient: self.recipient.deep_view(),
            amount: self.amount.deep_view(),
            spl_token: self.spl_token.deep_view(),
            use_usdc_mainnet: self.use_usdc_mainnet,
            use_usdc_devnet: self.use_usdc_devnet,
            label: self.label.deep_view(),
            message: self.message.deep_view(),
            memo: self.memo.deep_view(),
            max_decimals: self.max_decimals,
        }
    }
}

/// A payment link: the URI and the reference that it carries.
#[derive(Clone, Debug, PartialEq, Eq)]
pub struct LinkResponse {
    pub url: String,
    pub reference: String,
}

/// What is fixed once for all requests: the recipient of a request that
/// names none, and the addresses of the named tokens.
#[derive(Clone, Debug, PartialEq, Eq)]
pub struct LinkConfig {
    pub recipient: Option<String>,
    pub tokens: TokenDirectory,
}

/// A `LinkConfig` with its strings as texts.
pub struct ConfigTexts {
    pub recipient: Option<Seq<char>>,
    pub tokens: DirectoryTexts,
}

impl View for LinkConfig {
    type V = ConfigTexts;

    open spec fn view(&self) -> ConfigTexts {
        ConfigTexts { recipient: self.recipient.deep_view(), tokens: self.tokens@ }
    }
}

/// A request for the image of a link.
#[derive(Clone, Debug, PartialEq, Eq)]
pub struct QrParams {
    /// The link to render.
    pub url: String,
    /// The wanted side of the image in pixels.
    pub size: Option<u32>,
}

} // verus!
