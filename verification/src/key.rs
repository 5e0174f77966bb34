//! The key material of one attempt of the search.

use crate::address::{address_of, first_match, is_first_match, no_match_below};
use crate::bls::{fingerprint_of, public_key_of, secret_key_of_seed, wallet_intermediate};
use crate::bls::{PublicKey, SecretKey};
use crate::entropy::{entropy_to_phrase, entropy_to_seed, mix_entropy, system_entropy};
use crate::entropy::{mixed_entropy, mnemonic_phrase, mnemonic_seed};
use crate::text::{decimal, decimal_string, hex, hex_encode};
use crate::variants::texts;
use vstd::prelude::*;
use vstd::string::StringExecFns;

verus! {

/// A mnemonic with the master key pair and the wallet key made from it.
pub struct Key {
    mnemonic: String,
    secret_key: SecretKey,
    public_key: PublicKey,
    wallet: PublicKey,
}

/// What a `Key` holds: the phrase, and the bytes of its three keys.
pub struct KeyView {
    pub mnemonic: Seq<char>,
    pub secret_key: Seq<u8>,
    pub public_key: Seq<u8>,
    pub wallet: Seq<u8>,
}

/// The text of the public keys and an address, as three labelled lines.
pub struct Export {
    /// The name of the file the text belongs in.
    pub file_name: String,
    /// The three lines, each closed by a line feed.
    pub contents: String,
}

/// The key material that 32 bytes of entropy give: the mnemonic of the
/// entropy, the master secret key of the mnemonic's seed, its public key, and
/// the wallet-level intermediate key under that public key.
pub open spec fn key_of_entropy(entropy: Seq<u8>) -> KeyView {
    let mnemonic = mnemonic_phrase(entropy);
    let secret_key = secret_key_of_seed(mnemonic_seed(mnemonic));
    let public_key = public_key_of(secret_key);
    KeyView { mnemonic, secret_key, public_key, wallet: wallet_intermediate(public_key) }
}

/// The three lines of an export.
pub open spec fn export_contents(key: KeyView, address: Seq<char>) -> Seq<char> {
    "Master Public Key:   "@ + hex(key.public_key) + "\n"@ + "Wallet Observer Key: "@ + hex(
        key.wallet,
    ) + "\n"@ + "Address:             "@ + address + "\n"@
}

/// The name of the file of an export: the fingerprint of the master public
/// key in decimal, with the ending `.txt`.
pub open spec fn export_file_name(key: KeyView) -> Seq<char> {
    decimal(fingerprint_of(key.public_key) as nat) + ".txt"@
}

impl View for Key {
    type V = KeyView;

    closed spec fn view(&self) -> KeyView {
        KeyView {
            mnemonic: self.mnemonic@,
            secret_key: self.secret_key@,
            public_key: self.public_key@,
            wallet: self.wallet@,
        }
    }
}

impl Key {
    /// The key material of 32 bytes of entropy.
    pub fn from_entropy(entropy: &[u8; 32]) -> (key: Key)
        ensures
            key@ == key_of_entropy(entropy@),
    {
        let mnemonic = entropy_to_phrase(entropy);
        let seed = entropy_to_seed(entropy);
        let secret_key = SecretKey::from_seed(seed.as_slice());
        let public_key = secret_key.public_key();
        let wallet = public_key.wallet_intermediate();
        Key { mnemonic, secret_key, public_key, wallet }
    }

    /// Fresh key material: the user's text is mixed with 32 bytes drawn from
    /// the system's random source, so two calls give different keys. The
    /// text is left as it was.
    pub fn generate(user_entropy: &mut String) -> (key: Key)
        ensures
            *final(user_entropy) == *old(user_entropy),
            exists|system: Seq<u8>|
                system.len() == 32 && key@ == key_of_entropy(
                    #[trigger] mixed_entropy(old(user_entropy)@, system),
                ),
    {
        let system = system_entropy();
        let entropy = mix_entropy(user_entropy.as_str(), &system);
        let key = Key::from_entropy(&entropy);
        assert(system@.len() == 32 && key@ == key_of_entropy(
            mixed_entropy(user_entropy@, system@),
        ));
        key
    }

    /// The first address of this key, among those at the indices below
    /// `maxindex`, that ends with one of the suffixes of `desired`, and its
    /// index; `None` where there is none. The addresses are those under the
    /// wallet-level intermediate key.
    pub fn vanity_address(&self, desired: &Vec<String>, maxindex: &u32) -> (found: Option<
        (String, u32),
    >)
        ensures
            match found {
                Some((address, index)) => {
                    &&& is_first_match(self@.wallet, texts(desired@), *maxindex, index)
                    &&& address@ == address_of(self@.wallet, index)
                },
                None => no_match_below(self@.wallet, texts(desired@), *maxindex),
            },
    {
        first_match(&self.wallet, desired, *maxindex)
    }

    /// The text that records this key's public keys and `address`, and the
    /// name of the file to keep it in.
    pub fn export(&self, address: &String) -> (export: Export)
        ensures
            export.file_name@ == export_file_name(self@),
            export.contents@ == export_contents(self@, address@),
    {
        let mut contents = String::new();
        contents.append("Master Public Key:   ");
        contents.append(hex_encode(self.public_key.to_bytes().as_slice()).as_str());
        contents.append("\n");
        contents.append("Wallet Observer Key: ");
        contents.append(hex_encode(self.wallet.to_bytes().as_slice()).as_str());
        contents.append("\n");
        contents.append("Address:             ");
        contents.append(address.as_str());
        contents.append("\n");
        let mut file_name = decimal_string(self.public_key.get_fingerprint());
        file_name.append(".txt");
        assert(contents@ =~= export_contents(self@, address@));
        Export { file_name, contents }
    }

    /// The mnemonic phrase.
    pub fn mnemonic(&self) -> (phrase: &String)
        ensures
            phrase@ == self@.mnemonic,
    {
        &self.mnemonic
    }

    /// The master secret key.
    pub fn secret_key(&self) -> (key: SecretKey)
        ensures
            key@ == self@.secret_key,
    {
        self.secret_key
    }

    /// The master public key.
    pub fn public_key(&self) -> (key: PublicKey)
        ensures
            key@ == self@.public_key,
    {
        self.public_key
    }

    /// The wallet-level intermediate public key, with which an observer can
    /// derive every address.
    pub fn wallet(&self) -> (key: PublicKey)
        ensures
            key@ == self@.wallet,
    {
        self.wallet
    }
}

} // verus!
