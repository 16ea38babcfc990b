//! A local key-custody agent core: an encrypted key store, a passphrase
//! verifier, per-connection sessions and the listener's admission rules.

pub mod auth;
pub mod bytes;
pub mod envelope;
pub mod error;
pub mod kdf;
pub mod keygen;
pub mod laws;
pub mod message;
pub mod name;
pub mod policy;
pub mod record;
pub mod session;
pub mod socket;
pub mod store;
