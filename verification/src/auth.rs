//! The passphrase verifier.
//!
//! A passphrase is never kept. It is stretched with a salt into 64 bytes:
//! the first half is the verifier, which may be persisted and is all that an
//! authenticator holds; the second half is the store key, which goes to the
//! caller and cannot be recovered from the verifier.

use vstd::prelude::*;
use vstd::slice::slice_to_vec;
use vstd::string::StringSliceAdditionalSpecFns;
use vstd::utf8::encode_utf8;
use crate::bytes::{copy_range, ct_eq, wipe};
use crate::kdf::{stretch, stretched};

verus! {

/// Length of a verifier.
pub const VERIFIER_LEN: usize = 32;

/// Length of a store key.
pub const STORE_KEY_LEN: usize = 32;

/// Everything that is derived from a passphrase under a salt.
pub open spec fn secret_of(passphrase: Seq<char>, salt: Seq<u8>, rounds: u32) -> Seq<u8> {
    stretched(encode_utf8(passphrase), salt, rounds, (VERIFIER_LEN + STORE_KEY_LEN) as nat)
}

/// The verifier of a passphrase under a salt.
pub open spec fn verifier_of(passphrase: Seq<char>, salt: Seq<u8>, rounds: u32) -> Seq<u8> {
    secret_of(passphrase, salt, rounds).subrange(0, VERIFIER_LEN as int)
}

/// The store key that a passphrase unlocks under a salt.
pub open spec fn store_key_of(passphrase: Seq<char>, salt: Seq<u8>, rounds: u32) -> Seq<u8> {
    secret_of(passphrase, salt, rounds).subrange(
        VERIFIER_LEN as int,
        (VERIFIER_LEN + STORE_KEY_LEN) as int,
    )
}

/// Checks candidate passphrases against a stored verifier.
pub struct SessionAuthenticator {
    salt: Vec<u8>,
    rounds: u32,
    stored: Vec<u8>,
}

impl SessionAuthenticator {
    /// The salt under which passphrases are stretched.
    pub closed spec fn salt(self) -> Seq<u8> {
        self.salt@
    }

    /// The iteration count of the stretching.
    pub closed spec fn rounds(self) -> u32 {
        self.rounds
    }

    /// The stored verifier.
    pub closed spec fn stored_verifier(self) -> Seq<u8> {
        self.stored@
    }

    /// Whether `candidate` has the stored verifier.
    pub open spec fn accepts(self, candidate: Seq<char>) -> bool {
        verifier_of(candidate, self.salt(), self.rounds()) == self.stored_verifier()
    }

    /// Whether this authenticator was enrolled with `passphrase`.
    pub open spec fn enrolled_with(self, passphrase: Seq<char>) -> bool {
        self.stored_verifier() == verifier_of(passphrase, self.salt(), self.rounds())
    }

    /// Enrolls a passphrase: returns the authenticator that holds its
    /// verifier, and the store key that it unlocks. The stretched secret is
    /// wiped before returning.
    pub fn enroll(passphrase: &str, salt: Vec<u8>, rounds: u32) -> (r: (SessionAuthenticator, Vec<u8>))
        ensures
            r.0.salt() == salt@,
            r.0.rounds() == rounds,
            r.0.enrolled_with(passphrase@),
            r.1@ == store_key_of(passphrase@, salt@, rounds),
    {
        let mut secret = stretch(passphrase.as_bytes(), salt.as_slice(), rounds, VERIFIER_LEN + STORE_KEY_LEN);
        let stored = copy_range(secret.as_slice(), 0, VERIFIER_LEN);
        let key = copy_range(secret.as_slice(), VERIFIER_LEN, VERIFIER_LEN + STORE_KEY_LEN);
        wipe(&mut secret);
        (SessionAuthenticator { salt, rounds, stored }, key)
    }

    /// Rebuilds an authenticator from a persisted verifier record.
    pub fn from_parts(salt: Vec<u8>, rounds: u32, stored: Vec<u8>) -> (auth: SessionAuthenticator)
        ensures
            auth.salt() == salt@,
            auth.rounds() == rounds,
            auth.stored_verifier() == stored@,
    {
        SessionAuthenticator { salt, rounds, stored }
    }

    /// The salt, for the persisted verifier record.
    pub fn salt_bytes(&self) -> (out: Vec<u8>)
        ensures
            out@ == self.salt(),
    {
        slice_to_vec(self.salt.as_slice())
    }

    /// The iteration count, for the persisted verifier record.
    pub fn rounds_value(&self) -> (out: u32)
        ensures
            out == self.rounds(),
    {
        self.rounds
    }

    /// The verifier, for the persisted verifier record.
    pub fn verifier_bytes(&self) -> (out: Vec<u8>)
        ensures
            out@ == self.stored_verifier(),
    {
        slice_to_vec(self.stored.as_slice())
    }

    /// Checks a candidate passphrase: stretches it as the enrolled one was
    /// and compares the verifiers without regard to where they differ. What
    /// was derived from the candidate is wiped before returning.
    pub fn verify(&self, candidate: &str) -> (ok: bool)
        ensures
            ok == self.accepts(candidate@),
    {
        let mut secret = stretch(
            candidate.as_bytes(),
            self.salt.as_slice(),
            self.rounds,
            VERIFIER_LEN + STORE_KEY_LEN,
        );
        let mut derived = copy_range(secret.as_slice(), 0, VERIFIER_LEN);
        wipe(&mut secret);
        let ok = ct_eq(derived.as_slice(), self.stored.as_slice());
        wipe(&mut derived);
        ok
    }

    /// Unlocks the store key with a candidate passphrase: the key when the
    /// candidate is accepted, nothing otherwise.
    pub fn unlock(&self, candidate: &str) -> (key: Option<Vec<u8>>)
        ensures
            match key {
                Some(k) => self.accepts(candidate@) && k@ == store_key_of(
                    candidate@,
                    self.salt(),
                    self.rounds(),
                ),
                None => !self.accepts(candidate@),
            },
    {
        let mut secret = stretch(
            candidate.as_bytes(),
            self.salt.as_slice(),
            self.rounds,
            VERIFIER_LEN + STORE_KEY_LEN,
        );
        let mut derived = copy_range(secret.as_slice(), 0, VERIFIER_LEN);
        let ok = ct_eq(derived.as_slice(), self.stored.as_slice());
        wipe(&mut derived);
        let key = if ok {
            Some(copy_range(secret.as_slice(), VERIFIER_LEN, VERIFIER_LEN + STORE_KEY_LEN))
        } else {
            None
        };
        wipe(&mut secret);
        key
    }
}

} // verus!
