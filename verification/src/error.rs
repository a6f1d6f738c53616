//! The failures a synchronization can end in.

use vstd::prelude::*;

verus! {

/// Why an operation of the mirror protocol failed.
#[derive(Clone, Copy, Debug, PartialEq, Eq, Structural)]
pub enum SyncError {
    /// No key is stored under the requested alias.
    IdentityNotFound,
    /// A key is already stored under the requested alias.
    IdentityAlreadyExists,
    /// No local alias maps to the identity of the connecting peer.
    UnknownPeer,
    /// Reading, writing or walking the disk failed.
    IoError,
    /// A frame was malformed, truncated, or named something it may not name.
    ProtocolError,
    /// The transport could not connect or accept.
    TransportError,
}

impl SyncError {
    /// A short description of the failure, for messages to the user.
    pub fn message(&self) -> (text: &'static str)
        ensures
            text@ == match *self {
                SyncError::IdentityNotFound => "identity not found"@,
                SyncError::IdentityAlreadyExists => "identity already exists"@,
                SyncError::UnknownPeer => "unknown peer"@,
                SyncError::IoError => "i/o error"@,
                SyncError::ProtocolError => "protocol error"@,
                SyncError::TransportError => "transport error"@,
            },
    {
        match self {
            SyncError::IdentityNotFound => "identity not found",
            SyncError::IdentityAlreadyExists => "identity already exists",
            SyncError::UnknownPeer => "unknown peer",
            SyncError::IoError => "i/o error",
            SyncError::ProtocolError => "protocol error",
            SyncError::TransportError => "transport error",
        }
    }
}

} // verus!
