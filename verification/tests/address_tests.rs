use paylink::address::{check_key, validate_pubkey};
use paylink::error::AddressFault;

const USDC_MAINNET: &str = "EPjFWdd5AufqSSqeM2qN1xzybapC8G4wEGGkZwyTDt1v";

#[test]
fn accepts_a_key_of_32_bytes() {
    assert_eq!(validate_pubkey(USDC_MAINNET), Ok(()));
    assert_eq!(validate_pubkey("So11111111111111111111111111111111111111112"), Ok(()));
    assert_eq!(validate_pubkey("11111111111111111111111111111111"), Ok(()));
}

#[test]
fn accepts_every_text_that_encodes_32_bytes() {
    for seed in 0u8..=255 {
        let mut key = [0u8; 32];
        for (i, byte) in key.iter_mut().enumerate() {
            *byte = seed.wrapping_mul(31).wrapping_add((i as u8).wrapping_mul(seed | 1));
        }
        let text = bs58::encode(key).into_string();
        assert_eq!(validate_pubkey(&text), Ok(()), "{}", text);
    }
}

#[test]
fn refuses_a_character_outside_the_alphabet() {
    for bad in ["0", "O", "I", "l", " ", "+", "/", "é", "\n"] {
        let text = format!("{}{}", bad, &USDC_MAINNET[1..]);
        assert_eq!(validate_pubkey(&text), Err(AddressFault::Undecodable), "{:?}", text);
    }
}

#[test]
fn normalizes_neither_case_nor_whitespace() {
    assert_eq!(validate_pubkey(&format!(" {}", USDC_MAINNET)), Err(AddressFault::Undecodable));
    assert_eq!(validate_pubkey(&format!("{}\n", USDC_MAINNET)), Err(AddressFault::Undecodable));
    let wrapped = "So11111111111111111111111111111111111111112";
    assert_eq!(validate_pubkey(wrapped), Ok(()));
    assert_eq!(validate_pubkey(&wrapped.to_uppercase()), Err(AddressFault::Undecodable));
}

#[test]
fn refuses_another_length() {
    assert_eq!(validate_pubkey("he11owor1d"), Err(AddressFault::WrongLength { len: 8 }));
    assert_eq!(validate_pubkey(""), Err(AddressFault::WrongLength { len: 0 }));
    assert_eq!(
        validate_pubkey("1111111111111111111111111111111"),
        Err(AddressFault::WrongLength { len: 31 })
    );
    assert_eq!(
        validate_pubkey("111111111111111111111111111111111"),
        Err(AddressFault::WrongLength { len: 33 })
    );
    let long = bs58::encode([7u8; 64]).into_string();
    assert_eq!(validate_pubkey(&long), Err(AddressFault::WrongLength { len: 64 }));
}

#[test]
fn judges_a_decoded_key_by_its_length() {
    assert_eq!(check_key(&None), Err(AddressFault::Undecodable));
    assert_eq!(check_key(&Some(vec![0u8; 32])), Ok(()));
    assert_eq!(check_key(&Some(vec![9u8; 32])), Ok(()));
    assert_eq!(check_key(&Some(Vec::new())), Err(AddressFault::WrongLength { len: 0 }));
    assert_eq!(check_key(&Some(vec![1u8; 33])), Err(AddressFault::WrongLength { len: 33 }));
}
