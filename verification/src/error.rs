//! Errors of the host-local manager.

use vstd::prelude::*;

verus! {

/// What can go wrong while managing local virtual machine state. Outside
/// failures are carried as their messages.
#[derive(Clone, PartialEq, Eq, Debug)]
pub enum VirtusError {
    /// The image tool could not create a disk.
    DiskError,
    /// The switch refused a port or bridge operation.
    OVSError,
    /// A malformed identifier.
    UuidError,
    /// A malformed domain document.
    XMLError(String),
    /// A host input/output failure.
    IOError(String),
    /// Bytes that are not valid UTF-8 where text was expected.
    UTF8Error,
    /// A malformed wire document.
    SerdeError(String),
    /// The hypervisor refused an operation.
    VirtError(String),
    /// The local store refused an operation.
    SledError(String),
    /// A switch reply did not have the expected shape.
    DbError,
    /// A virtual machine with the requested name already exists.
    VMExists,
    /// The machine is shutting down and cannot be started.
    VMShuttingDown,
    /// The machine has no definition on the hypervisor.
    VMUndefined,
    /// The bridge or link an interface needed does not exist.
    InterfaceNotFound,
    /// The physical uplink is already claimed by another network.
    PhysicalNetworkExists,
    /// The pool a disk was to be created in does not exist.
    PoolNotFound,
    /// A stored record failed to decode.
    CorruptRecord,
}

impl VirtusError {
    /// A short description of the error.
    pub fn message(&self) -> (r: String)
        ensures
            r@ == self.message_spec(),
    {
        match self {
            VirtusError::DiskError => String::from_str("failed to create disk"),
            VirtusError::OVSError => String::from_str("failed to create OVS port"),
            VirtusError::UuidError => String::from_str("malformed identifier"),
            VirtusError::XMLError(m) => m.clone(),
            VirtusError::IOError(m) => m.clone(),
            VirtusError::UTF8Error => String::from_str("invalid UTF-8"),
            VirtusError::SerdeError(m) => m.clone(),
            VirtusError::VirtError(m) => m.clone(),
            VirtusError::SledError(m) => m.clone(),
            VirtusError::DbError => String::from_str("unexpected switch reply"),
            VirtusError::VMExists => String::from_str("virtual machine already exists"),
            VirtusError::VMShuttingDown => String::from_str(
                "virtual machine is shutting down"),
            VirtusError::VMUndefined => String::from_str("virtual machine is undefined"),
            VirtusError::InterfaceNotFound => String::from_str("interface not found"),
            VirtusError::PhysicalNetworkExists => String::from_str(
                "physical network already exists"),
            VirtusError::PoolNotFound => String::from_str("pool not found"),
            VirtusError::CorruptRecord => String::from_str("stored record is corrupt"),
        }
    }

    /// The description text of each error.
    pub open spec fn message_spec(&self) -> Seq<char> {
        match self {
            VirtusError::DiskError => "failed to create disk"@,
            VirtusError::OVSError => "failed to create OVS port"@,
            VirtusError::UuidError => "malformed identifier"@,
            VirtusError::XMLError(m) => m@,
            VirtusError::IOError(m) => m@,
            VirtusError::UTF8Error => "invalid UTF-8"@,
            VirtusError::SerdeError(m) => m@,
            VirtusError::VirtError(m) => m@,
            VirtusError::SledError(m) => m@,
            VirtusError::DbError => "unexpected switch reply"@,
            VirtusError::VMExists => "virtual machine already exists"@,
            VirtusError::VMShuttingDown => "virtual machine is shutting down"@,
            VirtusError::VMUndefined => "virtual machine is undefined"@,
            VirtusError::InterfaceNotFound => "interface not found"@,
            VirtusError::PhysicalNetworkExists => "physical network already exists"@,
            VirtusError::PoolNotFound => "pool not found"@,
            VirtusError::CorruptRecord => "stored record is corrupt"@,
        }
    }
}

} // verus!
