//! What a signing backend has to offer. The library itself never holds a
//! secret key: it hands out pre-images and takes signatures and public keys
//! as bytes.

use vstd::prelude::*;

verus! {

/// A secret key was asked for from bytes that are none.
#[derive(Clone, Copy, Debug, PartialEq, Eq, Structural)]
pub struct InvalidSecretKey;

/// A public key that can be written in its compressed form.
pub trait PublicKey {
    /// The key in its compressed form.
    fn serialize(&self) -> [u8; 33];
}

/// A signature that can be written in DER form, without the byte of its kind.
pub trait Signature {
    /// The signature in DER form.
    fn serialize_der(&self) -> Vec<u8>;
}

/// A secret key that can be read from bytes.
pub trait SecretKey: Sized {
    /// The key that the bytes hold.
    fn from_slice(slice: &[u8]) -> Result<Self, InvalidSecretKey>;
}

/// A signing backend with its digests.
pub trait Crypto {
    type SecretKey: SecretKey;

    type PublicKey: PublicKey;

    type Signature: Signature;

    /// RIPEMD-160 of SHA-256.
    fn hash160(data: &[u8]) -> [u8; 20];

    /// SHA-256.
    fn single_sha256(data: &[u8]) -> [u8; 32];

    /// SHA-256 applied twice.
    fn double_sha256(data: &[u8]) -> [u8; 32];

    /// The signature of `message` under `key`.
    fn sign(&self, message: &[u8], key: &Self::SecretKey) -> Self::Signature;

    /// The public key of a secret key.
    fn secret_to_pub_key(&self, key: &Self::SecretKey) -> Self::PublicKey;
}

} // verus!
