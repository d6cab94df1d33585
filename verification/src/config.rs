//! Host configuration.

use vstd::prelude::*;

verus! {

/// Where the manager keeps its state and how it reaches the hypervisor.
pub struct Config {
    pub data_dir: String,
    pub libvirt_uri: String,
}

impl Config {
    /// The default configuration: state under `/var/lib/virtus`, the
    /// system hypervisor endpoint.
    pub fn new() -> (r: Config)
        ensures
            r.data_dir@ == "/var/lib/virtus"@,
            r.libvirt_uri@ == "qemu:///system"@,
    {
        Config {
            data_dir: String::from_str("/var/lib/virtus"),
            libvirt_uri: String::from_str("qemu:///system"),
        }
    }
}

} // verus!
