use paylink::error::{ConfigKey, LinkError};
use paylink::token::{mint_address, resolve_token, Shortcut, TokenDirectory, TokenSelection};

const USDC_MAINNET: &str = "EPjFWdd5AufqSSqeM2qN1xzybapC8G4wEGGkZwyTDt1v";
const USDC_DEVNET: &str = "4zMMC9srt5Ri5X14GAgXhaHii3GnPAEERYPJgZJDncDU";

fn directory() -> TokenDirectory {
    TokenDirectory {
        usdc_mainnet: Some(USDC_MAINNET.to_string()),
        usdc_devnet: Some(USDC_DEVNET.to_string()),
    }
}

#[test]
fn resolves_to_the_native_currency_without_any_option() {
    assert_eq!(resolve_token(None, false, false), Ok(TokenSelection::Native));
}

#[test]
fn resolves_a_single_option() {
    assert_eq!(
        resolve_token(Some("mint".to_string()), false, false),
        Ok(TokenSelection::ExplicitMint("mint".to_string()))
    );
    assert_eq!(
        resolve_token(None, true, false),
        Ok(TokenSelection::NamedShortcut(Shortcut::MainnetUsdc))
    );
    assert_eq!(
        resolve_token(None, false, true),
        Ok(TokenSelection::NamedShortcut(Shortcut::DevnetUsdc))
    );
}

#[test]
fn refuses_an_explicit_mint_beside_a_shortcut() {
    let mint = Some(USDC_MAINNET.to_string());
    assert_eq!(resolve_token(mint.clone(), true, false), Err(LinkError::ConflictingTokenOptions));
    assert_eq!(resolve_token(mint.clone(), false, true), Err(LinkError::ConflictingTokenOptions));
    assert_eq!(resolve_token(mint, true, true), Err(LinkError::ConflictingTokenOptions));
}

#[test]
fn refuses_both_shortcuts() {
    assert_eq!(resolve_token(None, true, true), Err(LinkError::ConflictingTokenOptions));
}

#[test]
fn finds_the_mint_of_a_selection() {
    assert_eq!(mint_address(&TokenSelection::Native, &directory()), Ok(None));
    assert_eq!(
        mint_address(&TokenSelection::ExplicitMint("abc".to_string()), &directory()),
        Ok(Some("abc".to_string()))
    );
    assert_eq!(
        mint_address(&TokenSelection::NamedShortcut(Shortcut::MainnetUsdc), &directory()),
        Ok(Some(USDC_MAINNET.to_string()))
    );
    assert_eq!(
        mint_address(&TokenSelection::NamedShortcut(Shortcut::DevnetUsdc), &directory()),
        Ok(Some(USDC_DEVNET.to_string()))
    );
}

#[test]
fn misses_a_named_token_that_is_not_configured() {
    let empty = TokenDirectory { usdc_mainnet: None, usdc_devnet: None };
    assert_eq!(mint_address(&TokenSelection::Native, &empty), Ok(None));
    assert_eq!(
        mint_address(&TokenSelection::NamedShortcut(Shortcut::MainnetUsdc), &empty),
        Err(LinkError::MissingConfiguration { key: ConfigKey::MainnetUsdc })
    );
    assert_eq!(
        mint_address(&TokenSelection::NamedShortcut(Shortcut::DevnetUsdc), &empty),
        Err(LinkError::MissingConfiguration { key: ConfigKey::DevnetUsdc })
    );
}
