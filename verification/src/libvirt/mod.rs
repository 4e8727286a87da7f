//! Libvirt domain definitions for new instances.
use vstd::prelude::*;

use crate::libvirt::libvirt_domain::{Channel, Console, Disk, Domain, Empty, Interface, Mac};
use crate::model::VmConfig;
use crate::paths::InstancePaths;

pub mod libvirt_domain;
pub mod xml;
pub mod xml_read;

verus! {

/// The libvirt network every instance is attached to.
pub const USERS_NETWORK: &'static str = "andromeda-users";

/// The definition of the users network: NAT behind the host, with the host
/// at the default guest gateway.
pub const USERS_NETWORK_XML: &'static str = "<network>
  <name>andromeda-users</name>
  <forward mode=\"nat\"/>
  <bridge name=\"virbr-andromeda\" stp=\"on\" delay=\"0\"/>
  <ip address=\"10.0.0.1\" netmask=\"255.255.255.0\"/>
</network>
";

/// `c` is a lowercase hexadecimal digit.
pub open spec fn is_lower_hex(c: char) -> bool {
    ('0' <= c <= '9') || ('a' <= c <= 'f')
}

/// A random (version 4, RFC 4122 variant) UUID in hyphenated lowercase form,
/// `xxxxxxxx-xxxx-4xxx-yxxx-xxxxxxxxxxxx` with `y` one of `8`, `9`, `a`, `b`.
pub open spec fn is_uuid_v4_text(text: Seq<char>) -> bool {
    &&& text.len() == 36
    &&& forall|j: int|
        0 <= j < 36 ==> if j == 8 || j == 13 || j == 18 || j == 23 {
            text[j] == '-'
        } else {
            is_lower_hex(#[trigger] text[j])
        }
    &&& text[14] == '4'
    &&& (text[19] == '8' || text[19] == '9' || text[19] == 'a' || text[19] == 'b')
}

/// `domain` is the definition of the instance described by `config` and
/// `paths`, with UUID `uuid`: a `Domain::new` guest named after the hostname
/// with the configured memory and CPUs, the instance disk as qcow2 `sdb`, the
/// seed ISO as CD-ROM `sda`, one interface on the users network with the
/// configured MAC address, the serial console and the guest-agent channel.
pub open spec fn describes_instance(
    domain: Domain,
    config: &VmConfig,
    paths: &InstancePaths,
    uuid: Seq<char>,
) -> bool {
    &&& domain.kind@ == "kvm"@
    &&& domain.name@ == config.instance.hostname@
    &&& domain.uuid matches Some(u) && u@ == uuid
    &&& domain.memory.unit@ == "MiB"@
    &&& domain.memory.value == config.instance.memory
    &&& domain.vcpu == config.instance.vcpus
    &&& domain.os.kind.arch@ == "x86_64"@
    &&& domain.os.kind.machine@ == "q35"@
    &&& domain.os.kind.value@ == "hvm"@
    &&& domain.os.boot@.len() == 1
    &&& domain.os.boot@[0].dev@ == "hd"@
    &&& domain.features.acpi == Some(Empty {})
    &&& domain.features.apic == Some(Empty {})
    &&& domain.cpu.mode@ == "host-passthrough"@
    &&& domain.devices.disks@.len() == 2
    &&& {
        let d = domain.devices.disks@[0];
        &&& d.kind@ == "file"@
        &&& d.device@ == "disk"@
        &&& d.driver.name@ == "qemu"@
        &&& d.driver.kind@ == "qcow2"@
        &&& d.source.file@ == paths.disk@
        &&& d.target.dev@ == "sdb"@
        &&& d.target.bus@ == "virtio"@
        &&& d.readonly is None
    }
    &&& {
        let d = domain.devices.disks@[1];
        &&& d.kind@ == "file"@
        &&& d.device@ == "cdrom"@
        &&& d.driver.name@ == "qemu"@
        &&& d.driver.kind@ == "raw"@
        &&& d.source.file@ == paths.seed_iso@
        &&& d.target.dev@ == "sda"@
        &&& d.target.bus@ == "sata"@
        &&& d.readonly == Some(Empty {})
    }
    &&& domain.devices.interfaces@.len() == 1
    &&& {
        let i = domain.devices.interfaces@[0];
        &&& i.kind@ == "network"@
        &&& i.mac matches Some(m) && m.address@ == config.networking.mac@
        &&& i.source.network@ == USERS_NETWORK@
        &&& i.model.kind@ == "virtio"@
    }
    &&& domain.devices.consoles@.len() == 1
    &&& domain.devices.consoles@[0].kind@ == "pty"@
    &&& domain.devices.consoles@[0].target.kind@ == "serial"@
    &&& domain.devices.consoles@[0].target.port == 0
    &&& domain.devices.channels@.len() == 1
    &&& domain.devices.channels@[0].kind@ == "unix"@
    &&& domain.devices.channels@[0].target.kind@ == "virtio"@
    &&& domain.devices.channels@[0].target.name@ == "org.qemu.guest_agent.0"@
}

/// The definition of the instance described by `config` and `paths`, with UUID `uuid`.
pub fn instance_domain(config: &VmConfig, paths: &InstancePaths, uuid: &str) -> (r: Domain)
    ensures
        describes_instance(r, config, paths, uuid@),
{
    let mut domain = Domain::new(
        config.instance.hostname.as_str(),
        config.instance.memory,
        config.instance.vcpus,
    );
    domain.uuid = Some(String::from_str(uuid));
    let mut disks: Vec<Disk> = Vec::new();
    disks.push(Disk::file(paths.disk.as_str(), "sdb", "qcow2"));
    disks.push(Disk::cdrom(paths.seed_iso.as_str(), "sda"));
    domain.devices.disks = disks;
    let mut interface = Interface::network(USERS_NETWORK);
    interface.mac = Some(Mac { address: config.networking.mac.clone() });
    domain.devices.interfaces.push(interface);
    domain.devices.consoles.push(Console::serial());
    domain.devices.channels.push(Channel::guest_agent());
    domain
}

/// The answer when no UUID could be drawn for a new domain.
pub open spec fn uuid_failure_message() -> Seq<char> {
    "Could not generate a domain UUID"@
}

/// The domain XML of a new instance and the random UUID it was given; fails
/// only when the random source does.
pub fn generate_domain(config: &VmConfig, paths: &InstancePaths) -> (r: Result<(String, String), String>)
    ensures
        r matches Ok(p) ==> {
            &&& is_uuid_v4_text(p.1@)
            &&& exists|domain: Domain|
                describes_instance(domain, config, paths, p.1@) && p.0@ == #[trigger] xml::domain_xml(
                    domain,
                )
        },
        r matches Err(e) ==> e@ == uuid_failure_message(),
{
    let uuid = match crate::random::new_uuid() {
        Some(u) => u,
        None => {
            return Err(String::from_str("Could not generate a domain UUID"));
        },
    };
    let domain = instance_domain(config, paths, uuid.as_str());
    let xml = domain.to_xml();
    Ok((xml, uuid))
}

} // verus!
