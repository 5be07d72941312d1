//! What `sysinfo` reports of the host.
use vstd::prelude::*;

verus! {

/// The parts of the host's `sysinfo` that the servers read.
#[derive(Debug)]
pub struct Sysinfo {
    pub live_image: String,
    pub cpu_count: u64,
    pub mib_of_memory: u64,
    pub zpool_size_in_gib: u64,
    pub boot_parameters: BootParameters,
}

/// The boot parameters of the host.
#[derive(Debug)]
pub struct BootParameters {
    pub root_shadow: String,
}

} // verus!
