//! The failures that the agent reports to a caller.

use vstd::prelude::*;
use vstd::string::StringExecFns;

verus! {

/// Why a request was refused. No variant carries key bytes or other
/// internal state.
#[derive(Clone, Copy, Debug, PartialEq, Eq, Structural)]
pub enum Error {
    /// A record with the requested nickname is already stored.
    DuplicateNickname,
    /// No record has the requested nickname.
    NotFound,
    /// The session has not presented the passphrase, or the request is not
    /// one that its state admits.
    AuthenticationFailed,
    /// The session is closed.
    SessionClosed,
    /// The durable store could not be read or written, or a record is not
    /// one that the store holds: its port is not in 1 to 65535.
    StoreIoError,
    /// Key material could not be produced, sealed or opened: a sealed record
    /// was tampered with, or the key is wrong.
    CryptoError,
}

impl Error {
    /// The name of the variant as it goes out in a response.
    pub open spec fn kind_spec(self) -> Seq<char> {
        match self {
            Error::DuplicateNickname => "DuplicateNickname"@,
            Error::NotFound => "NotFound"@,
            Error::AuthenticationFailed => "AuthenticationFailed"@,
            Error::SessionClosed => "SessionClosed"@,
            Error::StoreIoError => "StoreIoError"@,
            Error::CryptoError => "CryptoError"@,
        }
    }

    /// The name of the variant as it goes out in a response.
    pub fn kind(&self) -> (name: String)
        ensures
            name@ == self.kind_spec(),
    {
        match self {
            Error::DuplicateNickname => String::from_str("DuplicateNickname"),
            Error::NotFound => String::from_str("NotFound"),
            Error::AuthenticationFailed => String::from_str("AuthenticationFailed"),
            Error::SessionClosed => String::from_str("SessionClosed"),
            Error::StoreIoError => String::from_str("StoreIoError"),
            Error::CryptoError => String::from_str("CryptoError"),
        }
    }
}

} // verus!
