//! Sealing of key material at rest.
//!
//! A sealed blob is a 32-byte tag followed by the plaintext XORed with a pad.
//! The tag authenticates the plaintext under the store key; the pad is
//! derived from the store key and the tag, so that no nonce has to be kept
//! and a blob that was altered, or is opened under another key, is refused
//! as a whole.

use vstd::prelude::*;
use crate::bytes::{copy_range, ct_eq, lemma_xor_involution, wipe, xor_bytes, xor_seq};
use crate::error::Error;
use crate::kdf::{stretch, stretched};

verus! {

/// Length of the authentication tag that starts a sealed blob.
pub const TAG_LEN: usize = 32;

/// The longest plaintext that can be sealed.
pub const MAX_PLAINTEXT_LEN: usize = 0x0100_0000;

/// The tag that authenticates `plaintext` under `key`.
pub open spec fn tag_of(key: Seq<u8>, plaintext: Seq<u8>) -> Seq<u8> {
    stretched(key, seq![1u8] + plaintext, 1, TAG_LEN as nat)
}

/// The pad of `len` bytes that hides a plaintext whose tag is `tag`.
pub open spec fn pad_of(key: Seq<u8>, tag: Seq<u8>, len: nat) -> Seq<u8> {
    stretched(key, seq![2u8] + tag, 1, len)
}

/// The sealed form of `plaintext` under `key`.
pub open spec fn sealed(key: Seq<u8>, plaintext: Seq<u8>) -> Seq<u8> {
    let tag = tag_of(key, plaintext);
    tag + xor_seq(plaintext, pad_of(key, tag, plaintext.len()))
}

/// What a blob opens to under `key`: the plaintext whose tag the blob
/// carries, or nothing when the blob is too short, too long, or its tag does
/// not match.
pub open spec fn opened(key: Seq<u8>, blob: Seq<u8>) -> Option<Seq<u8>> {
    if blob.len() < TAG_LEN || blob.len() > TAG_LEN + MAX_PLAINTEXT_LEN {
        None
    } else {
        let tag = blob.subrange(0, TAG_LEN as int);
        let body = blob.subrange(TAG_LEN as int, blob.len() as int);
        let plaintext = xor_seq(body, pad_of(key, tag, body.len()));
        if tag_of(key, plaintext) == tag {
            Some(plaintext)
        } else {
            None
        }
    }
}

/// Sealing and then opening under the same key gives the plaintext back,
/// byte for byte.
pub proof fn lemma_seal_round_trip(key: Seq<u8>, plaintext: Seq<u8>)
    requires
        plaintext.len() <= MAX_PLAINTEXT_LEN,
    ensures
        opened(key, sealed(key, plaintext)) == Some(plaintext),
{
    let tag = tag_of(key, plaintext);
    let pad = pad_of(key, tag, plaintext.len());
    let blob = sealed(key, plaintext);
    assert(blob.subrange(0, TAG_LEN as int) =~= tag);
    assert(blob.subrange(TAG_LEN as int, blob.len() as int) =~= xor_seq(plaintext, pad));
    lemma_xor_involution(plaintext, pad);
}

/// A sealed blob is longer than its plaintext, so it is never the plaintext
/// itself.
pub proof fn lemma_sealed_is_not_plaintext(key: Seq<u8>, plaintext: Seq<u8>)
    ensures
        sealed(key, plaintext).len() == plaintext.len() + TAG_LEN,
        sealed(key, plaintext) != plaintext,
{
}

/// Prefixes `data` with a one-byte domain label.
fn labelled(label: u8, data: &[u8]) -> (out: Vec<u8>)
    requires
        data@.len() < usize::MAX,
    ensures
        out@ == seq![label] + data@,
{
    let n: usize = data.len();
    let mut out: Vec<u8> = Vec::with_capacity(n + 1);
    out.push(label);
    let mut i: usize = 0;
    while i < n
        invariant
            n == data@.len(),
            i <= n,
            out@ == seq![label] + data@.subrange(0, i as int),
        decreases n - i,
    {
        out.push(data[i]);
        assert(data@.subrange(0, i + 1) =~= data@.subrange(0, i as int).push(data@[i as int]));
        i = i + 1;
    }
    assert(data@.subrange(0, n as int) =~= data@);
    out
}

/// Seals `plaintext` under `key`. Fails with `CryptoError` exactly when the
/// plaintext is longer than `MAX_PLAINTEXT_LEN`.
pub fn seal(key: &[u8], plaintext: &[u8]) -> (r: Result<Vec<u8>, Error>)
    ensures
        match r {
            Ok(blob) => plaintext@.len() <= MAX_PLAINTEXT_LEN && blob@ == sealed(key@, plaintext@),
            Err(e) => plaintext@.len() > MAX_PLAINTEXT_LEN && e == Error::CryptoError,
        },
{
    if plaintext.len() > MAX_PLAINTEXT_LEN {
        return Err(Error::CryptoError);
    }
    let tag_input = labelled(1u8, plaintext);
    let mut blob = stretch(key, tag_input.as_slice(), 1, TAG_LEN);
    let pad_input = labelled(2u8, blob.as_slice());
    let mut pad = stretch(key, pad_input.as_slice(), 1, plaintext.len());
    let body = xor_bytes(plaintext, pad.as_slice());
    wipe(&mut pad);
    let ghost tag = blob@;
    let n: usize = body.len();
    let mut i: usize = 0;
    while i < n
        invariant
            n == body@.len(),
            i <= n,
            blob@ == tag + body@.subrange(0, i as int),
        decreases n - i,
    {
        blob.push(body[i]);
        assert(body@.subrange(0, i + 1) =~= body@.subrange(0, i as int).push(body@[i as int]));
        i = i + 1;
    }
    assert(body@.subrange(0, n as int) =~= body@);
    Ok(blob)
}

/// Opens a sealed blob under `key`. Returns the plaintext when the blob's
/// tag matches it, and `CryptoError` otherwise; nothing of a refused blob's
/// content is returned.
pub fn unseal(key: &[u8], blob: &[u8]) -> (r: Result<Vec<u8>, Error>)
    ensures
        match r {
            Ok(plaintext) => opened(key@, blob@) == Some(plaintext@),
            Err(e) => opened(key@, blob@) is None && e == Error::CryptoError,
        },
{
    if blob.len() < TAG_LEN || blob.len() - TAG_LEN > MAX_PLAINTEXT_LEN {
        return Err(Error::CryptoError);
    }
    let tag = copy_range(blob, 0, TAG_LEN);
    let body = copy_range(blob, TAG_LEN, blob.len());
    let pad_input = labelled(2u8, tag.as_slice());
    let mut pad = stretch(key, pad_input.as_slice(), 1, body.len());
    let mut plaintext = xor_bytes(body.as_slice(), pad.as_slice());
    wipe(&mut pad);
    let tag_input = labelled(1u8, plaintext.as_slice());
    let expected = stretch(key, tag_input.as_slice(), 1, TAG_LEN);
    if ct_eq(expected.as_slice(), tag.as_slice()) {
        Ok(plaintext)
    } else {
        wipe(&mut plaintext);
        Err(Error::CryptoError)
    }
}

} // verus!
