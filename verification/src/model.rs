//! The provisioning input of one virtual machine and the stored instance record.
use vstd::prelude::*;

use crate::auth::permissions::{Permissions, Role};

verus! {

/// Everything a request supplies to provision one virtual machine.
pub struct VmConfig {
    pub user: GuestUserConfig,
    pub networking: NetworkConfig,
    pub instance: InstanceConfig,
}

/// The account created inside the guest.
pub struct GuestUserConfig {
    pub name: String,
    pub key: String,
}

/// How the guest is attached to the network.
pub struct NetworkConfig {
    pub ip: String,
    pub dhcp: bool,
    pub mac: String,
    pub remote_port: u16,
    pub service_port: u16,
}

/// Size and identity of the guest.
pub struct InstanceConfig {
    pub hostname: String,
    /// Disk size in MiB.
    pub disk_size: usize,
    /// Memory in MiB.
    pub memory: u64,
    pub vcpus: u32,
    /// Free text shown to the instance's members.
    pub description: String,
}

/// One stored instance.
pub struct Instance {
    pub id: String,
    pub owner_id: String,
    pub hostname: String,
    pub memory_mib: u32,
    pub vcpus: u32,
    pub mac_address: String,
    pub ipv4_address: String,
    pub remote_port: u16,
    pub service_port: u16,
}

/// An instance together with the caller's role on it and what that role permits.
pub struct InstanceView {
    pub instance: Instance,
    pub role: Role,
    pub permissions: Permissions,
}

} // verus!
