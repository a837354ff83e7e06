use vstd::prelude::*;
use crate::error::AddressFault;

verus! {

/// Number of raw bytes that an address decodes to.
pub const KEY_LEN: usize = 32;

/// Whether `c` belongs to the address alphabet: the digits and Latin letters
/// without `0`, `O`, `I` and `l`.
pub open spec fn is_base58_char(c: char) -> bool {
    let n = c as u32;
    ||| 0x31 <= n <= 0x39
    ||| 0x41 <= n <= 0x48
    ||| 0x4a <= n <= 0x4e
    ||| 0x50 <= n <= 0x5a
    ||| 0x61 <= n <= 0x6b
    ||| 0x6d <= n <= 0x7a
}

/// Whether every character of `text` belongs to the address alphabet.
pub open spec fn all_base58(text: Seq<char>) -> bool {
    forall|i: int| 0 <= i < text.len() ==> is_base58_char(#[trigger] text[i])
}

/// The bytes that `text` stands for in base 58, if it stands for any.
pub uninterp spec fn base58_decoding(text: Seq<char>) -> Option<Seq<u8>>;

/// The verdict on a text, given what it decodes to.
pub open spec fn key_verdict(decoded: Option<Seq<u8>>) -> Result<(), AddressFault> {
    match decoded {
        None => Err(AddressFault::Undecodable),
        Some(bytes) => if bytes.len() == KEY_LEN {
            Ok(())
        } else {
            Err(AddressFault::WrongLength { len: bytes.len() as usize })
        },
    }
}

/// Whether `text` is an address: a base-58 string for exactly 32 bytes.
pub open spec fn is_address(text: Seq<char>) -> bool {
    key_verdict(base58_decoding(text)) is Ok
}

/// Decodes with `bs58::decode(..).into_vec()`, in the Bitcoin alphabet and
/// without a checksum. Not proved: that the result is the base-58 decoding
/// of `text`, and that a text with a character outside the alphabet has none.
#[verifier::external_body]
fn decode_base58(text: &str) -> (res: Option<Vec<u8>>)
    ensures
        match res {
            Some(bytes) => base58_decoding(text@) == Some(bytes@),
            None => base58_decoding(text@) is None,
        },
        res is Some ==> all_base58(text@),
{
    bs58::decode(text).into_vec().ok()
}

/// Judges a decoded key by its length alone.
pub fn check_key(decoded: &Option<Vec<u8>>) -> (res: Result<(), AddressFault>)
    ensures
        res == key_verdict(
            match *decoded {
                Some(bytes) => Some(bytes@),
                None => None,
            },
        ),
{
    match decoded {
        None => Err(AddressFault::Undecodable),
        Some(bytes) => {
            if bytes.len() == KEY_LEN {
                Ok(())
            } else {
                Err(AddressFault::WrongLength { len: bytes.len() })
            }
        },
    }
}

/// Accepts `text` exactly when it is an address. No case or whitespace is
/// normalized: a text with any character outside the alphabet is refused.
pub fn validate_pubkey(text: &str) -> (res: Result<(), AddressFault>)
    ensures
        res == key_verdict(base58_decoding(text@)),
        res is Ok <==> is_address(text@),
        !all_base58(text@) ==> res == Err::<(), AddressFault>(AddressFault::Undecodable),
{
    let decoded = decode_base58(text);
    check_key(&decoded)
}

} // verus!
