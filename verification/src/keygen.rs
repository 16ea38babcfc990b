//! Fresh private keys, generated and encoded by the `russh_keys` crate.

use vstd::prelude::*;

verus! {

/// A private key held by `russh_keys`. Nothing inside it is visible to the
/// proofs; it is only carried from the generator to the encoder.
#[verifier::external_type_specification]
#[verifier::external_body]
pub struct ExKeyPair(russh_keys::key::KeyPair);

/// Calls `russh_keys::key::KeyPair::generate_ed25519`, which draws an Ed25519
/// signing key from the operating system's random source and panics if that
/// source fails. Trusted: whenever the function returns, it returns a key;
/// its one return is `Some` of the key it drew. Nothing is claimed of the
/// key itself: two calls give different keys.
#[verifier::external_body]
fn generate_ed25519() -> (pair: Option<russh_keys::key::KeyPair>)
    ensures
        pair is Some,
{
    russh_keys::key::KeyPair::generate_ed25519()
}

/// Calls `russh_keys::pkcs8::encode_pkcs8`, which writes the key as an
/// unencrypted PKCS#8 document in DER. Trusted: the document is short. For
/// an Ed25519 key, the one kind of key that this build of the crate has, it
/// is a fixed frame around the 64 bytes of the key pair and the 32 bytes of
/// the public key, far below the bound stated here. Nothing is claimed of
/// the bytes themselves.
#[verifier::external_body]
fn encode_pkcs8(pair: &russh_keys::key::KeyPair) -> (der: Vec<u8>)
    ensures
        der@.len() <= 0x0100_0000,
{
    russh_keys::pkcs8::encode_pkcs8(pair)
}

/// Generates a new Ed25519 key pair and returns its private material as a
/// PKCS#8 document. Every call returns a key, in a document short enough to
/// be sealed. The bytes are secret and differ from call to call; nothing
/// more is known of them here.
pub(crate) fn fresh_private_key() -> (material: Option<Vec<u8>>)
    ensures
        material is Some,
        material->0@.len() <= 0x0100_0000,
{
    match generate_ed25519() {
        Some(pair) => Some(encode_pkcs8(&pair)),
        None => None,
    }
}

} // verus!
