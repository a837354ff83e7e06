use vstd::prelude::*;
use rand::Rng;
use crate::address::{all_base58, KEY_LEN};

verus! {

/// The base-58 text that stands for `bytes`.
pub uninterp spec fn base58_encoding(bytes: Seq<u8>) -> Seq<char>;

/// Encodes with `bs58::encode(..).into_string()`, in the Bitcoin alphabet.
/// Not proved: that the result is the base-58 text of `bytes`, and that it
/// holds characters of the alphabet only.
#[verifier::external_body]
fn encode_base58(bytes: &[u8]) -> (res: String)
    ensures
        res@ == base58_encoding(bytes@),
        all_base58(res@),
{
    bs58::encode(bytes).into_string()
}

/// Draws 32 bytes from `rand::thread_rng()`. Nothing is claimed of them.
#[verifier::external_body]
pub(crate) fn random_key() -> (key: [u8; 32]) {
    rand::thread_rng().sample(rand::distributions::Standard)
}

/// The reference for a given key: its 32 bytes in the address alphabet.
pub fn reference_from_key(key: &[u8; 32]) -> (reference: String)
    ensures
        reference@ == base58_encoding(key@),
        all_base58(reference@),
{
    encode_base58(key.as_slice())
}

/// A fresh reference: 32 bytes from the thread's random generator, in the
/// address alphabet. It depends on nothing but that draw.
pub fn generate_reference() -> (reference: String)
    ensures
        exists|key: Seq<u8>| key.len() == KEY_LEN && reference@ == #[trigger] base58_encoding(key),
        all_base58(reference@),
{
    let key = random_key();
    reference_from_key(&key)
}

} // verus!
