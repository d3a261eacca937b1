//! Signing keys: the raw secret key of a funding source and the key hash that
//! a single-key lock is made over.

use vstd::prelude::*;
use crate::hash::Hash160;

verus! {

/// A secret key as its 32 bytes.
#[derive(Clone, Copy, Debug, PartialEq, Eq)]
pub struct SecretKey {
    pub bytes: [u8; 32],
}

/// The key hash of a secret key: the first 20 bytes of the hash of its
/// compressed public key. `None` for 32 bytes that are no secret key of the
/// curve.
pub uninterp spec fn public_key_hash(secret: Seq<u8>) -> Option<Seq<u8>>;

/// Reads the secret key with `secp256k1::SecretKey::from_byte_array`, derives
/// its public key with `secp256k1::PublicKey::from_secret_key`, and takes the
/// key hash that `ckb_sdk::AddressPayload::from_pubkey` makes of it. Trusted:
/// the outcome is the one named `public_key_hash` of the 32 bytes, and so
/// depends on nothing else.
#[verifier::external_body]
fn derive_key_hash(secret: &[u8; 32]) -> (hash: Option<Hash160>)
    ensures
        hash matches Some(h) ==> public_key_hash(secret@) == Some(h@),
        hash is None ==> public_key_hash(secret@) is None,
{
    match secp256k1::SecretKey::from_byte_array(secret) {
        Ok(key) => {
            let public = secp256k1::PublicKey::from_secret_key(&ckb_sdk::SECP256K1, &key);
            match ckb_sdk::AddressPayload::from_pubkey(&public) {
                ckb_sdk::AddressPayload::Short { hash, .. } => Some(Hash160 { bytes: hash.0 }),
                ckb_sdk::AddressPayload::Full { .. } => None,
            }
        },
        Err(_) => None,
    }
}

impl SecretKey {
    pub fn new(bytes: [u8; 32]) -> (key: SecretKey)
        ensures
            key.bytes == bytes,
    {
        SecretKey { bytes }
    }

    /// The key hash that a single-key lock over this key carries, or `None`
    /// where the bytes are no secret key.
    pub fn key_hash(&self) -> (hash: Option<Hash160>)
        ensures
            hash matches Some(h) ==> public_key_hash(self.bytes@) == Some(h@),
            hash is None ==> public_key_hash(self.bytes@) is None,
    {
        derive_key_hash(&self.bytes)
    }
}

} // verus!
