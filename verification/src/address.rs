//! The address of a wallet key, and the test for a vanity suffix.
//!
//! An address is made in four steps: the unhardened child at an index of the
//! wallet-level intermediate key, its synthetic key, the hash of the standard
//! puzzle curried with that key, and the Bech32m text of the hash. The steps are
//! computed by the `chia_bls`, `chia_wallet` and `bech32` crates; this module
//! composes them and searches the indices in ascending order.

use crate::bls::{is_public_key, unhardened_child, PublicKey};
use crate::variants::texts;
use vstd::prelude::*;

verus! {

/// The bytes of the synthetic key of the public key `key` for a hidden
/// puzzle with the hash `hidden_puzzle_hash`.
pub uninterp spec fn synthetic_key(key: Seq<u8>, hidden_puzzle_hash: Seq<u8>) -> Seq<u8>;

/// The hash of the standard puzzle curried with the synthetic key
/// `synthetic`.
pub uninterp spec fn standard_puzzle_hash(synthetic: Seq<u8>) -> Seq<u8>;

/// The Bech32m text with the human-readable part `hrp`, in lower case, and
/// the bytes of `payload` as its data.
pub uninterp spec fn bech32m(hrp: Seq<char>, payload: Seq<u8>) -> Seq<char>;

/// The hash of the default hidden puzzle.
pub open spec fn default_hidden_puzzle_hash() -> Seq<u8> {
    seq![
        0x71u8, 0x1du8, 0x6cu8, 0x4eu8, 0x32u8, 0xc9u8, 0x2eu8, 0x53u8,
        0x17u8, 0x9bu8, 0x19u8, 0x94u8, 0x84u8, 0xcfu8, 0x8cu8, 0x89u8,
        0x75u8, 0x42u8, 0xbcu8, 0x57u8, 0xf2u8, 0xb2u8, 0x25u8, 0x82u8,
        0x79u8, 0x9fu8, 0x9du8, 0x65u8, 0x7eu8, 0xecu8, 0x46u8, 0x99u8,
    ]
}

/// The text holds a letter between `first` and `last`.
pub open spec fn has_letter_between(text: Seq<char>, first: char, last: char) -> bool {
    exists|i: int| 0 <= i < text.len() && first as u32 <= (#[trigger] text[i]) as u32 <= last as u32
}

/// A text can be the human-readable part of a Bech32m text: 1 to 83
/// printable ASCII characters, not both upper-case and lower-case letters.
pub open spec fn valid_hrp(hrp: Seq<char>) -> bool {
    &&& 1 <= hrp.len() <= 83
    &&& forall|i: int| 0 <= i < hrp.len() ==> 33 <= (#[trigger] hrp[i]) as u32 <= 126
    &&& !(has_letter_between(hrp, 'a', 'z') && has_letter_between(hrp, 'A', 'Z'))
}

/// The address at `index` under the wallet-level intermediate key `wallet`.
pub open spec fn address_of(wallet: Seq<u8>, index: u32) -> Seq<char> {
    bech32m(
        ADDRESS_PREFIX@,
        standard_puzzle_hash(
            synthetic_key(unhardened_child(wallet, index), default_hidden_puzzle_hash()),
        ),
    )
}

/// `address` ends with one of the texts of `desired`.
pub open spec fn ends_with_any(address: Seq<char>, desired: Seq<Seq<char>>) -> bool {
    exists|j: int| 0 <= j < desired.len() && (#[trigger] desired[j]).is_suffix_of(address)
}

/// `index` is the lowest index below `limit` whose address under `wallet`
/// ends with one of the texts of `desired`.
pub open spec fn is_first_match(
    wallet: Seq<u8>,
    desired: Seq<Seq<char>>,
    limit: u32,
    index: u32,
) -> bool {
    &&& index < limit
    &&& ends_with_any(address_of(wallet, index), desired)
    &&& forall|earlier: u32|
        earlier < index ==> !ends_with_any(#[trigger] address_of(wallet, earlier), desired)
}

/// No index below `limit` has an address under `wallet` that ends with one
/// of the texts of `desired`.
pub open spec fn no_match_below(wallet: Seq<u8>, desired: Seq<Seq<char>>, limit: u32) -> bool {
    forall|index: u32|
        index < limit ==> !ends_with_any(#[trigger] address_of(wallet, index), desired)
}

/// The human-readable part of an address: the network's name.
pub const ADDRESS_PREFIX: &'static str = "xch";

#[verifier::external_type_specification]
#[verifier::external_body]
pub struct ExBech32Error(bech32::Error);

/// `chia_wallet::standard::DEFAULT_HIDDEN_PUZZLE_HASH`, a constant of 32
/// bytes.
#[verifier::external_body]
fn hidden_puzzle_hash() -> (hash: [u8; 32])
    ensures
        hash@ == default_hidden_puzzle_hash(),
{
    chia_wallet::standard::DEFAULT_HIDDEN_PUZZLE_HASH
}

/// `chia_wallet::DeriveSynthetic::derive_synthetic` on a public key, from
/// bytes to bytes. The result is a sum of points of the group.
#[verifier::external_body]
fn derive_synthetic(key: &[u8; 48], hidden_puzzle_hash: &[u8; 32]) -> (synthetic: [u8; 48])
    requires
        is_public_key(key@),
    ensures
        synthetic@ == synthetic_key(key@, hidden_puzzle_hash@),
        is_public_key(synthetic@),
{
    let key = chia_bls::PublicKey::from_bytes(key).expect("bytes of a public key");
    chia_wallet::DeriveSynthetic::derive_synthetic(&key, hidden_puzzle_hash).to_bytes()
}

/// `chia_wallet::standard::standard_puzzle_hash`, which reads the bytes of
/// the synthetic key.
#[verifier::external_body]
fn puzzle_hash(synthetic: &[u8; 48]) -> (hash: [u8; 32])
    requires
        is_public_key(synthetic@),
    ensures
        hash@ == standard_puzzle_hash(synthetic@),
{
    let key = chia_bls::PublicKey::from_bytes(synthetic).expect("bytes of a public key");
    chia_wallet::standard::standard_puzzle_hash(&key)
}

/// `bech32::encode` with the variant Bech32m, on the payload regrouped by
/// `bech32::ToBase32::to_base32`. It fails exactly where the human-readable
/// part is not valid; the text depends on that part and the payload alone.
#[verifier::external_body]
fn bech32m_encode(hrp: &str, payload: &[u8]) -> (text: Result<String, bech32::Error>)
    ensures
        text is Ok <==> valid_hrp(hrp@),
        text matches Ok(encoded) ==> encoded@ == bech32m(hrp@, payload@),
{
    bech32::encode(hrp, bech32::ToBase32::to_base32(&payload), bech32::Variant::Bech32m)
}

/// `str::ends_with` with a text as the pattern: the text ends with the
/// pattern, character for character.
#[verifier::external_body]
fn ends_with(text: &str, suffix: &str) -> (found: bool)
    ensures
        found == suffix@.is_suffix_of(text@),
{
    text.ends_with(suffix)
}

/// The network's name is a valid human-readable part.
proof fn lemma_address_prefix_is_valid()
    ensures
        valid_hrp(ADDRESS_PREFIX@),
{
    reveal_strlit("xch");
    let hrp = ADDRESS_PREFIX@;
    assert(hrp.len() == 3);
    assert(hrp[0] == 'x' && hrp[1] == 'c' && hrp[2] == 'h');
}

/// The address at `index` under the wallet-level intermediate key `wallet`.
///
/// The address depends on the bytes of the key and on the index, and on
/// nothing else.
pub fn derive_address(wallet: &PublicKey, index: u32) -> (address: String)
    ensures
        address@ == address_of(wallet@, index),
{
    let child = wallet.derive_unhardened(index).to_bytes();
    let hidden = hidden_puzzle_hash();
    let synthetic = derive_synthetic(&child, &hidden);
    let hash = puzzle_hash(&synthetic);
    proof {
        lemma_address_prefix_is_valid();
    }
    bech32m_encode(ADDRESS_PREFIX, hash.as_slice()).expect("could not encode the address")
}

/// Tells whether `address` ends with one of the suffixes of `desired`.
pub fn matches_any(address: &str, desired: &Vec<String>) -> (found: bool)
    ensures
        found == ends_with_any(address@, texts(desired@)),
{
    let mut j: usize = 0;
    while j < desired.len()
        invariant
            j <= desired.len(),
            forall|k: int| 0 <= k < j ==> !(#[trigger] texts(desired@)[k]).is_suffix_of(address@),
        decreases desired.len() - j,
    {
        if ends_with(address, desired[j].as_str()) {
            assert(texts(desired@)[j as int].is_suffix_of(address@));
            return true;
        }
        j += 1;
    }
    false
}

/// Searches the indices from 0 up to `limit`, `limit` not included, for
/// the first address under `wallet` that ends with one of the suffixes of
/// `desired`. Returns that address and its index, or `None` where no index
/// below `limit` has such an address.
pub fn first_match(wallet: &PublicKey, desired: &Vec<String>, limit: u32) -> (found: Option<
    (String, u32),
>)
    ensures
        match found {
            Some((address, index)) => {
                &&& is_first_match(wallet@, texts(desired@), limit, index)
                &&& address@ == address_of(wallet@, index)
            },
            None => no_match_below(wallet@, texts(desired@), limit),
        },
{
    let mut index: u32 = 0;
    while index < limit
        invariant
            index <= limit,
            no_match_below(wallet@, texts(desired@), index),
        decreases limit - index,
    {
        let address = derive_address(wallet, index);
        if matches_any(address.as_str(), desired) {
            return Some((address, index));
        }
        index += 1;
    }
    None
}

/// Two keys with the same bytes have the same address at every index: an
/// address is a function of the key and the index alone.
pub proof fn lemma_address_is_deterministic(first: PublicKey, second: PublicKey, index: u32)
    requires
        first@ == second@,
    ensures
        address_of(first@, index) == address_of(second@, index),
{
}

/// Where several indices below the limit have a matching address, the first
/// match is the lowest of them: no matching index lies below it.
pub proof fn lemma_first_match_is_lowest(
    wallet: Seq<u8>,
    desired: Seq<Seq<char>>,
    limit: u32,
    first: u32,
    other: u32,
)
    requires
        is_first_match(wallet, desired, limit, first),
        ends_with_any(address_of(wallet, other), desired),
    ensures
        first <= other,
{
}

/// The first match is unique: two indices that both are the first match
/// are equal.
pub proof fn lemma_first_match_is_unique(
    wallet: Seq<u8>,
    desired: Seq<Seq<char>>,
    limit: u32,
    first: u32,
    second: u32,
)
    requires
        is_first_match(wallet, desired, limit, first),
        is_first_match(wallet, desired, limit, second),
    ensures
        first == second,
{
}

} // verus!
