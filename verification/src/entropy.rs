//! From entropy to a mnemonic phrase and its seed.
//!
//! The text a user supplies is mixed with bytes of the system's random source
//! by one pass of SHA-256. The 32 bytes that come out become a mnemonic of 24
//! words, and the mnemonic a seed of 64 bytes.

use crate::digest::{sha256, sha256_digest};
use vstd::prelude::*;
use vstd::utf8::encode_utf8;

verus! {

/// The English mnemonic phrase that encodes `entropy`, its words separated
/// by single spaces.
pub uninterp spec fn mnemonic_phrase(entropy: Seq<u8>) -> Seq<char>;

/// The 64-byte seed of the mnemonic `phrase`, taken with the empty
/// passphrase.
pub uninterp spec fn mnemonic_seed(phrase: Seq<char>) -> Seq<u8>;

/// A mnemonic encodes 16, 20, 24, 28 or 32 bytes of entropy.
pub open spec fn valid_entropy_len(len: nat) -> bool {
    len % 4 == 0 && 16 <= len <= 32
}

/// The entropy that a key is made from: the digest of the user's text, as
/// UTF-8, followed by the bytes of the system.
pub open spec fn mixed_entropy(user: Seq<char>, system: Seq<u8>) -> Seq<u8> {
    sha256(encode_utf8(user) + system)
}

#[verifier::external_type_specification]
#[verifier::external_body]
pub struct ExMnemonicError(bip39::Error);

/// `rand_core::OsRng::fill_bytes` on a buffer of 32 bytes. Nothing is known
/// of the bytes; the call stops the program if the system has none to give.
#[verifier::external_body]
pub(crate) fn system_entropy() -> (bytes: [u8; 32]) {
    let mut bytes = [0u8; 32];
    rand_core::RngCore::fill_bytes(&mut rand_core::OsRng, &mut bytes);
    bytes
}

/// `bip39::Mnemonic::from_entropy`, read back as text. It fails exactly
/// where the entropy is not a multiple of 32 bits between 128 and 256 bits
/// long; the phrase depends on the entropy alone.
#[verifier::external_body]
fn phrase_of_entropy(entropy: &[u8]) -> (phrase: Result<String, bip39::Error>)
    ensures
        phrase is Ok <==> valid_entropy_len(entropy@.len()),
        phrase matches Ok(text) ==> text@ == mnemonic_phrase(entropy@),
{
    match bip39::Mnemonic::from_entropy(entropy) {
        Ok(mnemonic) => Ok(mnemonic.to_string()),
        Err(error) => Err(error),
    }
}

/// `bip39::Mnemonic::to_seed` with the empty passphrase, on the mnemonic
/// that `from_entropy` makes. The seed is computed from the words of the
/// mnemonic, so it depends on the phrase alone.
#[verifier::external_body]
fn seed_of_entropy(entropy: &[u8]) -> (seed: Result<[u8; 64], bip39::Error>)
    ensures
        seed is Ok <==> valid_entropy_len(entropy@.len()),
        seed matches Ok(bytes) ==> bytes@ == mnemonic_seed(mnemonic_phrase(entropy@)),
{
    match bip39::Mnemonic::from_entropy(entropy) {
        Ok(mnemonic) => Ok(mnemonic.to_seed("")),
        Err(error) => Err(error),
    }
}

/// Mixes the user's text with bytes of the system into 32 bytes of entropy.
pub fn mix_entropy(user_entropy: &str, system: &[u8; 32]) -> (mixed: [u8; 32])
    ensures
        mixed@ == mixed_entropy(user_entropy@, system@),
{
    let mut data: Vec<u8> = user_entropy.as_bytes_vec();
    let mut i: usize = 0;
    while i < 32
        invariant
            i <= 32,
            data@ == encode_utf8(user_entropy@) + system@.take(i as int),
        decreases 32 - i,
    {
        data.push(system[i]);
        assert(system@.take(i + 1) =~= system@.take(i as int).push(system@[i as int]));
        i += 1;
    }
    assert(system@.take(32) =~= system@);
    sha256_digest(data.as_slice())
}

/// The mnemonic phrase of 32 bytes of entropy: 24 English words.
pub fn entropy_to_phrase(entropy: &[u8; 32]) -> (phrase: String)
    ensures
        phrase@ == mnemonic_phrase(entropy@),
{
    phrase_of_entropy(entropy.as_slice()).expect("could not generate mnemonic")
}

/// The seed of the mnemonic of 32 bytes of entropy, with the empty
/// passphrase.
pub fn entropy_to_seed(entropy: &[u8; 32]) -> (seed: [u8; 64])
    ensures
        seed@ == mnemonic_seed(mnemonic_phrase(entropy@)),
{
    seed_of_entropy(entropy.as_slice()).expect("could not generate mnemonic")
}

} // verus!
