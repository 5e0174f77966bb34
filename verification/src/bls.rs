//! Secret and public BLS keys, held as their canonical bytes.
//!
//! The curve arithmetic is done by the `chia_bls` crate. This module names
//! what that crate computes, so that contracts can speak of it, and wraps
//! each key in a type that only ever holds bytes the crate accepts.

use crate::digest::sha256;
use vstd::prelude::*;

verus! {

/// `bytes` is the 32-byte form of a secret key: `chia_bls::SecretKey::from_bytes`
/// accepts it.
pub uninterp spec fn is_secret_key(bytes: Seq<u8>) -> bool;

/// `bytes` is the 48-byte compressed form of a public key:
/// `chia_bls::PublicKey::from_bytes` accepts it.
pub uninterp spec fn is_public_key(bytes: Seq<u8>) -> bool;

/// The bytes of the master secret key that `chia_bls::SecretKey::from_seed`
/// derives from a seed.
pub uninterp spec fn secret_key_of_seed(seed: Seq<u8>) -> Seq<u8>;

/// The bytes of the public key that belongs to the secret key `secret`.
pub uninterp spec fn public_key_of(secret: Seq<u8>) -> Seq<u8>;

/// The bytes of the hardened child of the secret key `secret` at `index`.
pub uninterp spec fn hardened_child(secret: Seq<u8>, index: u32) -> Seq<u8>;

/// The bytes of the wallet-level unhardened intermediate key under the
/// master public key `master`.
pub uninterp spec fn wallet_intermediate(master: Seq<u8>) -> Seq<u8>;

/// The bytes of the unhardened child of the public key `parent` at `index`.
pub uninterp spec fn unhardened_child(parent: Seq<u8>, index: u32) -> Seq<u8>;

/// The fingerprint of the public key `key`: the first four bytes of the
/// SHA-256 digest of its bytes, read as a number with the most significant
/// byte first.
pub open spec fn fingerprint_of(key: Seq<u8>) -> u32 {
    let digest = sha256(key);
    (digest[0] as int * 0x100_0000 + digest[1] as int * 0x1_0000 + digest[2] as int * 0x100
        + digest[3] as int) as u32
}

/// `chia_bls::SecretKey::from_bytes` succeeds exactly on the bytes of a
/// secret key.
#[verifier::external_body]
fn secret_key_accepts(bytes: &[u8; 32]) -> (ok: bool)
    ensures
        ok == is_secret_key(bytes@),
{
    chia_bls::SecretKey::from_bytes(bytes).is_ok()
}

/// `chia_bls::PublicKey::from_bytes` succeeds exactly on the bytes of a
/// public key.
#[verifier::external_body]
fn public_key_accepts(bytes: &[u8; 48]) -> (ok: bool)
    ensures
        ok == is_public_key(bytes@),
{
    chia_bls::PublicKey::from_bytes(bytes).is_ok()
}

/// `chia_bls::SecretKey::from_seed`, which stops the program on a seed of
/// fewer than 32 bytes. Its result depends on the seed alone, and its bytes
/// are those of a secret key: the function itself reads them back with
/// `from_bytes`.
#[verifier::external_body]
fn master_secret_key(seed: &[u8]) -> (secret: [u8; 32])
    requires
        seed@.len() >= 32,
    ensures
        secret@ == secret_key_of_seed(seed@),
        is_secret_key(secret@),
{
    chia_bls::SecretKey::from_seed(seed).to_bytes()
}

/// `chia_bls::SecretKey::public_key`, from bytes to bytes. The result is a
/// point of the group, which `PublicKey::from_bytes` accepts.
#[verifier::external_body]
fn secret_to_public(secret: &[u8; 32]) -> (public: [u8; 48])
    requires
        is_secret_key(secret@),
    ensures
        public@ == public_key_of(secret@),
        is_public_key(public@),
{
    let key = chia_bls::SecretKey::from_bytes(secret).expect("bytes of a secret key");
    key.public_key().to_bytes()
}

/// `chia_bls::SecretKey::derive_hardened`, from bytes to bytes. The child is
/// made by `from_seed`, so its bytes are those of a secret key.
#[verifier::external_body]
fn secret_hardened_child(secret: &[u8; 32], index: u32) -> (child: [u8; 32])
    requires
        is_secret_key(secret@),
    ensures
        child@ == hardened_child(secret@, index),
        is_secret_key(child@),
{
    let key = chia_bls::SecretKey::from_bytes(secret).expect("bytes of a secret key");
    key.derive_hardened(index).to_bytes()
}

/// `chia_bls::derive_keys::master_to_wallet_unhardened_intermediate` on a
/// public key, from bytes to bytes. The result is a sum of points of the
/// group.
#[verifier::external_body]
fn public_wallet_intermediate(master: &[u8; 48]) -> (wallet: [u8; 48])
    requires
        is_public_key(master@),
    ensures
        wallet@ == wallet_intermediate(master@),
        is_public_key(wallet@),
{
    let key = chia_bls::PublicKey::from_bytes(master).expect("bytes of a public key");
    chia_bls::derive_keys::master_to_wallet_unhardened_intermediate(&key).to_bytes()
}

/// `chia_bls::DerivableKey::derive_unhardened` on a public key, from bytes
/// to bytes. The result is a sum of points of the group.
#[verifier::external_body]
fn public_unhardened_child(parent: &[u8; 48], index: u32) -> (child: [u8; 48])
    requires
        is_public_key(parent@),
    ensures
        child@ == unhardened_child(parent@, index),
        is_public_key(child@),
{
    let key = chia_bls::PublicKey::from_bytes(parent).expect("bytes of a public key");
    chia_bls::DerivableKey::derive_unhardened(&key, index).to_bytes()
}

/// `chia_bls::PublicKey::get_fingerprint`, which hashes the key's bytes with
/// SHA-256 and reads the first four bytes of the digest as a number, the
/// most significant byte first.
#[verifier::external_body]
fn public_fingerprint(key: &[u8; 48]) -> (fingerprint: u32)
    requires
        is_public_key(key@),
    ensures
        fingerprint == fingerprint_of(key@),
{
    chia_bls::PublicKey::from_bytes(key).expect("bytes of a public key").get_fingerprint()
}

/// A secret key.
#[derive(Clone, Copy, Debug)]
pub struct SecretKey {
    bytes: [u8; 32],
}

/// A public key.
#[derive(Clone, Copy, Debug)]
pub struct PublicKey {
    bytes: [u8; 48],
}

impl View for SecretKey {
    type V = Seq<u8>;

    /// The 32 bytes of the key, most significant first.
    closed spec fn view(&self) -> Seq<u8> {
        self.bytes@
    }
}

impl View for PublicKey {
    type V = Seq<u8>;

    /// The 48 bytes of the compressed point.
    closed spec fn view(&self) -> Seq<u8> {
        self.bytes@
    }
}

impl SecretKey {
    #[verifier::type_invariant]
    spec fn holds_a_key(self) -> bool {
        is_secret_key(self.bytes@)
    }

    /// The key with these bytes, or `None` where they are not those of a
    /// secret key.
    pub fn from_bytes(bytes: [u8; 32]) -> (key: Option<SecretKey>)
        ensures
            key is Some <==> is_secret_key(bytes@),
            key matches Some(k) ==> k@ == bytes@,
    {
        if secret_key_accepts(&bytes) {
            Some(SecretKey { bytes })
        } else {
            None
        }
    }

    /// The master secret key of a seed of at least 32 bytes.
    pub fn from_seed(seed: &[u8]) -> (key: SecretKey)
        requires
            seed@.len() >= 32,
        ensures
            key@ == secret_key_of_seed(seed@),
    {
        SecretKey { bytes: master_secret_key(seed) }
    }

    /// The bytes of the key.
    pub fn to_bytes(&self) -> (bytes: [u8; 32])
        ensures
            bytes@ == self@,
            is_secret_key(self@),
    {
        proof {
            use_type_invariant(self);
        }
        self.bytes
    }

    /// The public key that belongs to this secret key.
    pub fn public_key(&self) -> (public: PublicKey)
        ensures
            public@ == public_key_of(self@),
    {
        proof {
            use_type_invariant(self);
        }
        PublicKey { bytes: secret_to_public(&self.bytes) }
    }

    /// The hardened child of this key at `index`.
    pub fn derive_hardened(&self, index: u32) -> (child: SecretKey)
        ensures
            child@ == hardened_child(self@, index),
    {
        proof {
            use_type_invariant(self);
        }
        SecretKey { bytes: secret_hardened_child(&self.bytes, index) }
    }
}

impl PublicKey {
    #[verifier::type_invariant]
    spec fn holds_a_key(self) -> bool {
        is_public_key(self.bytes@)
    }

    /// The key with these bytes, or `None` where they are not those of a
    /// public key.
    pub fn from_bytes(bytes: [u8; 48]) -> (key: Option<PublicKey>)
        ensures
            key is Some <==> is_public_key(bytes@),
            key matches Some(k) ==> k@ == bytes@,
    {
        if public_key_accepts(&bytes) {
            Some(PublicKey { bytes })
        } else {
            None
        }
    }

    /// The bytes of the key.
    pub fn to_bytes(&self) -> (bytes: [u8; 48])
        ensures
            bytes@ == self@,
            is_public_key(self@),
    {
        proof {
            use_type_invariant(self);
        }
        self.bytes
    }

    /// The wallet-level unhardened intermediate key under this master key.
    pub fn wallet_intermediate(&self) -> (wallet: PublicKey)
        ensures
            wallet@ == wallet_intermediate(self@),
    {
        proof {
            use_type_invariant(self);
        }
        PublicKey { bytes: public_wallet_intermediate(&self.bytes) }
    }

    /// The unhardened child of this key at `index`. It is derived from the
    /// public key alone.
    pub fn derive_unhardened(&self, index: u32) -> (child: PublicKey)
        ensures
            child@ == unhardened_child(self@, index),
    {
        proof {
            use_type_invariant(self);
        }
        PublicKey { bytes: public_unhardened_child(&self.bytes, index) }
    }

    /// The fingerprint of the key, a short number that names it.
    pub fn get_fingerprint(&self) -> (fingerprint: u32)
        ensures
            fingerprint == fingerprint_of(self@),
    {
        proof {
            use_type_invariant(self);
        }
        public_fingerprint(&self.bytes)
    }
}

/// The key reached from `key` by hardened derivation along the first `steps`
/// indices of `path`.
pub open spec fn hardened_path(key: Seq<u8>, path: Seq<u32>, steps: nat) -> Seq<u8>
    decreases steps,
{
    if steps == 0 {
        key
    } else {
        hardened_child(hardened_path(key, path, (steps - 1) as nat), path[steps - 1])
    }
}

/// Derives the hardened descendant of `key` along `path`, one index after
/// the other. The path holds at least one index.
pub fn derive_path_hardened(key: &SecretKey, path: &[u32]) -> (derived: SecretKey)
    requires
        path@.len() > 0,
    ensures
        derived@ == hardened_path(key@, path@, path@.len()),
{
    let mut derived = key.derive_hardened(path[0]);
    assert(hardened_path(key@, path@, 0) == key@);
    let mut i: usize = 1;
    while i < path.len()
        invariant
            1 <= i <= path@.len(),
            derived@ == hardened_path(key@, path@, i as nat),
        decreases path@.len() - i,
    {
        derived = derived.derive_hardened(path[i]);
        i += 1;
    }
    derived
}

} // verus!
