//! Errors of the clustered control plane.

use vstd::prelude::*;

verus! {

/// What can go wrong between a node and the rest of the cluster.
#[derive(Clone, PartialEq, Eq, Debug)]
pub enum Error {
    /// The consensus layer refused or failed an operation.
    SkiffError(String),
    /// A host-local input/output failure, with its message.
    IOError(String),
    /// The peer a request had to reach is not in the catalog.
    PeerNotFound,
    /// Dialing a peer failed.
    PeerConnectFailed,
    /// No consensus leader is currently elected.
    NoLeaderElected,
    /// The pool a disk was to be created in is not in the catalog.
    PoolNotFound,
    /// A host tool exited non-zero; the payload is its standard error.
    CommandFailed(String),
}

impl Error {
    /// A short description of the error.
    pub fn message(&self) -> (r: String)
        ensures
            r@ == self.message_spec(),
    {
        match self {
            Error::SkiffError(_) => String::from_str("Skiff error"),
            Error::IOError(_) => String::from_str("IO error"),
            Error::PeerNotFound => String::from_str("Peer not found"),
            Error::PeerConnectFailed => String::from_str("Failed to connect to peer"),
            Error::NoLeaderElected => String::from_str("No leader elected"),
            Error::PoolNotFound => String::from_str("Pool not found"),
            Error::CommandFailed(stderr) => stderr.clone(),
        }
    }

    /// The description text of each error.
    pub open spec fn message_spec(&self) -> Seq<char> {
        match self {
            Error::SkiffError(_) => "Skiff error"@,
            Error::IOError(_) => "IO error"@,
            Error::PeerNotFound => "Peer not found"@,
            Error::PeerConnectFailed => "Failed to connect to peer"@,
            Error::NoLeaderElected => "No leader elected"@,
            Error::PoolNotFound => "Pool not found"@,
            Error::CommandFailed(stderr) => stderr@,
        }
    }
}

} // verus!
