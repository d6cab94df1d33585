//! A clustered control plane for virtual machines: a replicated catalog of
//! nodes, storage pools, disks, networks, interfaces and virtual machines,
//! a request-routing state machine, and the host-local effectors that turn
//! catalog intent into hypervisor, storage and switch actions.

use vstd::prelude::*;

pub mod cluster;
pub mod codec;
pub mod config;
pub mod disk;
pub mod domain;
pub mod error;
pub mod image;
pub mod interface;
pub mod network;
pub mod ovs;
pub mod ids;
pub mod net;
pub mod storage;
pub mod strutil;
pub mod vm;
pub mod xml;

verus! {

/// One kibibyte, in bytes.
pub const KILOBYTE: u64 = 1024;

/// One mebibyte, in bytes.
pub const MEGABYTE: u64 = 1024 * 1024;

/// One gibibyte, in bytes.
pub const GIGABYTE: u64 = 1024 * 1024 * 1024;

/// One tebibyte, in bytes.
pub const TERABYTE: u64 = 1024 * 1024 * 1024 * 1024;

} // verus!
