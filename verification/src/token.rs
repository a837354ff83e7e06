use vstd::prelude::*;
use crate::error::{ConfigKey, LinkError};

verus! {

/// A token that is chosen by name rather than by its mint's address.
#[derive(Clone, Copy, Debug, PartialEq, Eq, Structural)]
pub enum Shortcut {
    MainnetUsdc,
    DevnetUsdc,
}

/// What a payment is made in.
#[derive(Clone, Debug, PartialEq, Eq)]
pub enum TokenSelection {
    /// The base currency: the link carries no token parameter.
    Native,
    /// The token whose mint has this address.
    ExplicitMint(String),
    /// A token under a well-known name.
    NamedShortcut(Shortcut),
}

/// A `TokenSelection` with the mint's address as text.
pub enum TokenChoice {
    Native,
    ExplicitMint(Seq<char>),
    NamedShortcut(Shortcut),
}

impl View for TokenSelection {
    type V = TokenChoice;

    open spec fn view(&self) -> TokenChoice {
        match *self {
            TokenSelection::Native => TokenChoice::Native,
            TokenSelection::ExplicitMint(mint) => TokenChoice::ExplicitMint(mint@),
            TokenSelection::NamedShortcut(shortcut) => TokenChoice::NamedShortcut(shortcut),
        }
    }
}

/// The addresses that stand behind the named tokens, where they are known.
#[derive(Clone, Debug, PartialEq, Eq)]
pub struct TokenDirectory {
    pub usdc_mainnet: Option<String>,
    pub usdc_devnet: Option<String>,
}

/// A `TokenDirectory` with its addresses as texts.
pub struct DirectoryTexts {
    pub usdc_mainnet: Option<Seq<char>>,
    pub usdc_devnet: Option<Seq<char>>,
}

impl View for TokenDirectory {
    type V = DirectoryTexts;

    open spec fn view(&self) -> DirectoryTexts {
        DirectoryTexts {
            usdc_mainnet: self.usdc_mainnet.deep_view(),
            usdc_devnet: self.usdc_devnet.deep_view(),
        }
    }
}

/// How many of the three ways of choosing a token are used.
pub open spec fn ways_used(explicit: bool, mainnet: bool, devnet: bool) -> nat {
    (if explicit { 1nat } else { 0 }) + (if mainnet { 1nat } else { 0 }) + (if devnet { 1nat } else { 0 })
}

/// The token that the three options choose: a conflict where more than one
/// is used, the native currency where none is.
pub open spec fn token_choice(explicit_mint: Option<Seq<char>>, use_mainnet: bool, use_devnet: bool) -> Result<
    TokenChoice,
    LinkError,
> {
    if ways_used(explicit_mint is Some, use_mainnet, use_devnet) > 1 {
        Err(LinkError::ConflictingTokenOptions)
    } else if explicit_mint is Some {
        Ok(TokenChoice::ExplicitMint(explicit_mint->0))
    } else if use_mainnet {
        Ok(TokenChoice::NamedShortcut(Shortcut::MainnetUsdc))
    } else if use_devnet {
        Ok(TokenChoice::NamedShortcut(Shortcut::DevnetUsdc))
    } else {
        Ok(TokenChoice::Native)
    }
}

/// The address of the chosen token's mint: none for the native currency,
/// and for a named token the address that the directory gives it.
pub open spec fn mint_text(choice: TokenChoice, directory: DirectoryTexts) -> Result<
    Option<Seq<char>>,
    LinkError,
> {
    match choice {
        TokenChoice::Native => Ok(None),
        TokenChoice::ExplicitMint(mint) => Ok(Some(mint)),
        TokenChoice::NamedShortcut(Shortcut::MainnetUsdc) => match directory.usdc_mainnet {
            Some(mint) => Ok(Some(mint)),
            None => Err(LinkError::MissingConfiguration { key: ConfigKey::MainnetUsdc }),
        },
        TokenChoice::NamedShortcut(Shortcut::DevnetUsdc) => match directory.usdc_devnet {
            Some(mint) => Ok(Some(mint)),
            None => Err(LinkError::MissingConfiguration { key: ConfigKey::DevnetUsdc }),
        },
    }
}

/// Resolves the token of a request. An explicit mint and the two named
/// shortcuts exclude each other: with more than one of them the request is
/// refused, with none of them the payment is in the native currency.
pub fn resolve_token(explicit_mint: Option<String>, use_mainnet: bool, use_devnet: bool) -> (res:
    Result<TokenSelection, LinkError>)
    ensures
        match res {
            Ok(selection) => token_choice(explicit_mint.deep_view(), use_mainnet, use_devnet)
                == Ok::<TokenChoice, LinkError>(selection@),
            Err(e) => token_choice(explicit_mint.deep_view(), use_mainnet, use_devnet) == Err::<
                TokenChoice,
                LinkError,
            >(e),
        },
        explicit_mint is Some && (use_mainnet || use_devnet) ==> res == Err::<
            TokenSelection,
            LinkError,
        >(LinkError::ConflictingTokenOptions),
        use_mainnet && use_devnet ==> res == Err::<TokenSelection, LinkError>(
            LinkError::ConflictingTokenOptions,
        ),
{
    match explicit_mint {
        Some(mint) => {
            if use_mainnet || use_devnet {
                Err(LinkError::ConflictingTokenOptions)
            } else {
                Ok(TokenSelection::ExplicitMint(mint))
            }
        },
        None => {
            if use_mainnet && use_devnet {
                Err(LinkError::ConflictingTokenOptions)
            } else if use_mainnet {
                Ok(TokenSelection::NamedShortcut(Shortcut::MainnetUsdc))
            } else if use_devnet {
                Ok(TokenSelection::NamedShortcut(Shortcut::DevnetUsdc))
            } else {
                Ok(TokenSelection::Native)
            }
        },
    }
}

/// Looks up the address of the chosen token's mint.
pub fn mint_address(selection: &TokenSelection, directory: &TokenDirectory) -> (res: Result<
    Option<String>,
    LinkError,
>)
    ensures
        match res {
            Ok(mint) => mint_text(selection@, directory@) == Ok::<Option<Seq<char>>, LinkError>(
                mint.deep_view(),
            ),
            Err(e) => mint_text(selection@, directory@) == Err::<Option<Seq<char>>, LinkError>(e),
        },
{
    match selection {
        TokenSelection::Native => Ok(None),
        TokenSelection::ExplicitMint(mint) => Ok(Some(mint.clone())),
        TokenSelection::NamedShortcut(Shortcut::MainnetUsdc) => match &directory.usdc_mainnet {
            Some(mint) => Ok(Some(mint.clone())),
            None => Err(LinkError::MissingConfiguration { key: ConfigKey::MainnetUsdc }),
        },
        TokenSelection::NamedShortcut(Shortcut::DevnetUsdc) => match &directory.usdc_devnet {
            Some(mint) => Ok(Some(mint.clone())),
            None => Err(LinkError::MissingConfiguration { key: ConfigKey::DevnetUsdc }),
        },
    }
}

} // verus!
