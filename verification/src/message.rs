//! The requests that a session serves and what it answers.

use vstd::prelude::*;
use crate::record::{KeyId, KeyMetadata, KeyRecord};

verus! {

/// One request of a caller.
#[derive(Clone, Debug, PartialEq, Eq)]
pub enum Request {
    /// Presents a candidate passphrase.
    Authenticate { candidate: String },
    /// Asks for a new key for `user` at `host` and `port`, to be stored
    /// under `nickname`.
    Generate { nickname: String, user: String, host: String, port: u16 },
    /// Asks for the record stored under `nickname`.
    Get { nickname: String },
    /// Asks that the record stored under `nickname` be removed.
    Delete { nickname: String },
    /// Asks for the metadata of all records.
    List,
    /// Asks for one use of the private key `nickname`.
    Confirm { nickname: String },
}

impl Request {
    /// Whether serving the request can change the store.
    pub open spec fn mutates(self) -> bool {
        self is Generate || self is Delete
    }

    /// Whether serving the request can change the store. A request that
    /// cannot is served on a shared borrow of the store, beside others.
    pub fn is_mutation(&self) -> (yes: bool)
        ensures
            yes == self.mutates(),
    {
        match self {
            Request::Generate { .. } => true,
            Request::Delete { .. } => true,
            _ => false,
        }
    }

}

/// What a served request returns. Each kind of request has its own payload.
#[derive(Clone, Debug, PartialEq, Eq)]
pub enum Payload {
    /// Whether the candidate passphrase was accepted.
    Authenticated(bool),
    /// The identifier of the new key.
    Generated(KeyId),
    /// The record that was asked for, its private material sealed.
    Record(KeyRecord),
    /// Whether a record was removed.
    Deleted(bool),
    /// The metadata of all records in ascending order of nickname.
    Listing(Vec<KeyMetadata>),
    /// Whether the use of the private key was approved.
    Confirmed(bool),
}

} // verus!
