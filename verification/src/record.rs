//! Key records and the parts of them that leave the store.

use vstd::prelude::*;
use vstd::slice::slice_to_vec;

verus! {

/// One stored key: where it is used, and its private material in sealed
/// form. The nickname identifies the record.
#[derive(Clone, Debug, PartialEq, Eq)]
pub struct KeyRecord {
    pub nickname: String,
    pub user: String,
    pub host: String,
    pub port: u16,
    /// The private key, sealed under the store key. Never the plaintext.
    pub key_material: Vec<u8>,
    /// Seconds since the epoch at which the key was generated.
    pub created_at: u64,
}

/// The mathematical value of a `KeyRecord`.
pub struct KeyRecordView {
    pub nickname: Seq<char>,
    pub user: Seq<char>,
    pub host: Seq<char>,
    pub port: u16,
    pub key_material: Seq<u8>,
    pub created_at: u64,
}

/// What is shown of a record in a listing: everything but the key material.
#[derive(Clone, Debug, PartialEq, Eq)]
pub struct KeyMetadata {
    pub nickname: String,
    pub user: String,
    pub host: String,
    pub port: u16,
    pub created_at: u64,
}

/// The mathematical value of a `KeyMetadata`.
pub struct KeyMetadataView {
    pub nickname: Seq<char>,
    pub user: Seq<char>,
    pub host: Seq<char>,
    pub port: u16,
    pub created_at: u64,
}

/// The identifier of a stored key: the nickname it was generated under.
#[derive(Clone, Debug, PartialEq, Eq)]
pub struct KeyId {
    pub nickname: String,
}

impl View for KeyRecord {
    type V = KeyRecordView;

    open spec fn view(&self) -> KeyRecordView {
        KeyRecordView {
            nickname: self.nickname@,
            user: self.user@,
            host: self.host@,
            port: self.port,
            key_material: self.key_material@,
            created_at: self.created_at,
        }
    }
}

impl View for KeyMetadata {
    type V = KeyMetadataView;

    open spec fn view(&self) -> KeyMetadataView {
        KeyMetadataView {
            nickname: self.nickname@,
            user: self.user@,
            host: self.host@,
            port: self.port,
            created_at: self.created_at,
        }
    }
}

impl View for KeyId {
    type V = Seq<char>;

    open spec fn view(&self) -> Seq<char> {
        self.nickname@
    }
}

impl KeyRecordView {
    /// A record is valid when its port is one that a host can listen on.
    pub open spec fn valid(self) -> bool {
        self.port >= 1
    }

    /// The record without its key material.
    pub open spec fn metadata(self) -> KeyMetadataView {
        KeyMetadataView {
            nickname: self.nickname,
            user: self.user,
            host: self.host,
            port: self.port,
            created_at: self.created_at,
        }
    }
}

impl KeyRecord {
    /// The record without its key material.
    pub fn metadata(&self) -> (meta: KeyMetadata)
        ensures
            meta@ == self@.metadata(),
    {
        KeyMetadata {
            nickname: self.nickname.clone(),
            user: self.user.clone(),
            host: self.host.clone(),
            port: self.port,
            created_at: self.created_at,
        }
    }

    /// A copy of the record, sealed material included.
    pub fn duplicate(&self) -> (copy: KeyRecord)
        ensures
            copy@ == self@,
    {
        KeyRecord {
            nickname: self.nickname.clone(),
            user: self.user.clone(),
            host: self.host.clone(),
            port: self.port,
            key_material: slice_to_vec(self.key_material.as_slice()),
            created_at: self.created_at,
        }
    }
}

} // verus!
