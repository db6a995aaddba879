//! The server's long-lived key pair, and the box that seals what a session
//! and its client say to each other.

use crypto_box::aead::Aead;
use crypto_box::aead::AeadCore;
use crypto_box::aead::OsRng;
use crypto_box::ChaChaBox;
use crypto_box::Nonce;
use crypto_box::PublicKey;
use crypto_box::SecretKey;
use vstd::prelude::*;

verus! {

/// The size of a key.
pub const KEY_SIZE: usize = 32;

/// The size of the nonce that goes before a sealed body.
pub const NONCE_SIZE: usize = 24;

/// The public key that belongs to a secret key, both as 32 bytes.
pub uninterp spec fn public_key_for(secret_key: Seq<u8>) -> Seq<u8>;

/// What the box of a peer's public key and one's own secret key makes of a
/// message under a nonce: the sealed message, or nothing where the box
/// cannot seal it.
pub uninterp spec fn box_sealed(public_key: Seq<u8>, secret_key: Seq<u8>, nonce: Seq<u8>, plain: Seq<u8>) -> Option<
    Seq<u8>,
>;

/// What the box of a peer's public key and one's own secret key finds in a
/// sealed message under a nonce: the message, or nothing where the sealed
/// message does not authenticate.
pub uninterp spec fn box_opened(public_key: Seq<u8>, secret_key: Seq<u8>, nonce: Seq<u8>, sealed: Seq<u8>) -> Option<
    Seq<u8>,
>;

/// `crypto_box::SecretKey::generate` with the generator of the operating
/// system: the bytes of a new secret key. Nothing is known of them.
#[verifier::external_body]
pub(crate) fn generate_secret_key() -> (secret_key: [u8; 32]) {
    SecretKey::generate(&mut OsRng).to_bytes()
}

/// `crypto_box::SecretKey::public_key`: the bytes of the public key that
/// belongs to the secret key with the given bytes.
#[verifier::external_body]
pub(crate) fn public_key_of(secret_key: &[u8; 32]) -> (public_key: [u8; 32])
    ensures
        public_key@ == public_key_for(secret_key@),
{
    SecretKey::from_bytes(*secret_key).public_key().to_bytes()
}

/// `ChaChaBox::generate_nonce` with the generator of the operating system:
/// a new nonce. Nothing is known of it.
#[verifier::external_body]
pub(crate) fn generate_nonce() -> (nonce: [u8; 24]) {
    ChaChaBox::generate_nonce(&mut OsRng).into()
}

/// `ChaChaBox::encrypt` of the box made from the two keys: the sealed
/// message, by `box_sealed`.
#[verifier::external_body]
pub(crate) fn seal_box(public_key: &[u8; 32], secret_key: &[u8; 32], nonce: &[u8; 24], plain: &[u8]) -> (sealed: Option<
    Vec<u8>,
>)
    ensures
        match box_sealed(public_key@, secret_key@, nonce@, plain@) {
            Some(bytes) => sealed matches Some(v) && v@ == bytes,
            None => sealed is None,
        },
{
    let cipher = ChaChaBox::new(&PublicKey::from_bytes(*public_key), &SecretKey::from_bytes(*secret_key));
    cipher.encrypt(&Nonce::from(*nonce), plain).ok()
}

/// `ChaChaBox::decrypt` of the box made from the two keys: the message, by
/// `box_opened`.
#[verifier::external_body]
pub(crate) fn open_box(public_key: &[u8; 32], secret_key: &[u8; 32], nonce: &[u8; 24], sealed: &[u8]) -> (plain: Option<
    Vec<u8>,
>)
    ensures
        match box_opened(public_key@, secret_key@, nonce@, sealed@) {
            Some(bytes) => plain matches Some(v) && v@ == bytes,
            None => plain is None,
        },
{
    let cipher = ChaChaBox::new(&PublicKey::from_bytes(*public_key), &SecretKey::from_bytes(*secret_key));
    cipher.decrypt(&Nonce::from(*nonce), sealed).ok()
}

} // verus!
