//! Key derivation: PBKDF2 with HMAC-SHA-256, computed by the `pbkdf2` crate.

use vstd::prelude::*;

verus! {

/// The longest output that PBKDF2 defines for a 32-byte hash: its block
/// counter has 32 bits and starts at one.
pub open spec fn max_derived_len() -> nat {
    32 * 0xFFFF_FFFF
}

/// The PBKDF2-HMAC-SHA-256 output of `len` bytes for a password, a salt and
/// an iteration count (RFC 8018). Its value is whatever the `pbkdf2` crate
/// computes; only its length is known to the proofs.
pub uninterp spec fn pbkdf2_sha256(password: Seq<u8>, salt: Seq<u8>, rounds: u32, len: nat) -> Seq<u8>;

/// Calls `pbkdf2::pbkdf2_hmac::<sha2::Sha256>` on a zeroed buffer of `len`
/// bytes. Trusted: the function fills the whole buffer with a value that
/// depends on the password, the salt, the iteration count and the buffer's
/// length alone. The bound on `len` keeps its 32-bit block counter, which
/// it increments once per 32 bytes of output, from overflowing.
#[verifier::external_body]
fn pbkdf2_hmac_sha256(password: &[u8], salt: &[u8], rounds: u32, len: usize) -> (out: Vec<u8>)
    requires
        len <= max_derived_len(),
    ensures
        out@ == pbkdf2_sha256(password@, salt@, rounds, len as nat),
        out@.len() == len,
{
    let mut out = vec![0u8; len];
    pbkdf2::pbkdf2_hmac::<sha2::Sha256>(password, salt, rounds, &mut out);
    out
}

/// The derivation's output read as exactly `len` bytes. The derivation always
/// returns that many, so this is its output; written this way, the length is
/// known wherever the value is named.
pub open spec fn stretched(password: Seq<u8>, salt: Seq<u8>, rounds: u32, len: nat) -> Seq<u8> {
    let raw = pbkdf2_sha256(password, salt, rounds, len);
    Seq::new(len, |i: int| if i < raw.len() { raw[i] } else { 0u8 })
}

/// Derives `len` bytes from a password and a salt with `rounds` iterations.
pub fn stretch(password: &[u8], salt: &[u8], rounds: u32, len: usize) -> (out: Vec<u8>)
    requires
        len <= max_derived_len(),
    ensures
        out@ == stretched(password@, salt@, rounds, len as nat),
        out@.len() == len,
{
    let out = pbkdf2_hmac_sha256(password, salt, rounds, len);
    assert(out@ =~= stretched(password@, salt@, rounds, len as nat));
    out
}

} // verus!
