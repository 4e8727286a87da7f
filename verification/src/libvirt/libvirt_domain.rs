//! Domain configuration as libvirt reads it: a KVM guest with disks, one
//! network interface, a serial console and the guest-agent channel.
//!
//! This models guest configuration, not installation orchestration: media,
//! volumes and cloud-init data are prepared separately. Optional parts are
//! left out of the XML when absent; `Some(Empty {})` stands for a
//! presence-only element such as `<readonly/>`. Libvirt validates the values
//! when it defines the domain.
use vstd::prelude::*;

verus! {

/// A presence-only XML element, such as `<readonly/>`.
#[derive(Clone, Copy, PartialEq, Eq, Debug)]
pub struct Empty {}

/// `<memory unit="...">value</memory>`.
pub struct Memory {
    pub unit: String,
    pub value: u64,
}

impl Memory {
    /// `value` MiB of memory.
    pub fn mib(value: u64) -> (r: Self)
        ensures
            r.unit@ == "MiB"@,
            r.value == value,
    {
        Memory { unit: String::from_str("MiB"), value }
    }
}

/// `<cpu mode="..."/>`.
pub struct Cpu {
    pub mode: String,
}

/// `<type arch="..." machine="...">value</type>`.
pub struct OsType {
    pub arch: String,
    pub machine: String,
    pub value: String,
}

/// `<boot dev="..."/>`.
pub struct Boot {
    pub dev: String,
}

/// The guest's firmware view: machine type and boot order.
pub struct Os {
    pub kind: OsType,
    pub boot: Vec<Boot>,
}

impl Default for Os {
    /// An x86_64 `q35` HVM guest that boots from its hard disk.
    fn default() -> (r: Self)
        ensures
            r.kind.arch@ == "x86_64"@,
            r.kind.machine@ == "q35"@,
            r.kind.value@ == "hvm"@,
            r.boot@.len() == 1,
            r.boot@[0].dev@ == "hd"@,
    {
        let mut boot: Vec<Boot> = Vec::new();
        boot.push(Boot { dev: String::from_str("hd") });
        Os {
            kind: OsType {
                arch: String::from_str("x86_64"),
                machine: String::from_str("q35"),
                value: String::from_str("hvm"),
            },
            boot,
        }
    }
}

/// Optional guest features, enabled by the presence of their elements.
pub struct Features {
    pub acpi: Option<Empty>,
    pub apic: Option<Empty>,
}

impl Features {
    /// No feature is enabled; the `<features>` element is then left out.
    pub fn is_empty(&self) -> (r: bool)
        ensures
            r == (self.acpi is None && self.apic is None),
    {
        self.acpi.is_none() && self.apic.is_none()
    }
}

impl Default for Features {
    /// No feature enabled.
    fn default() -> (r: Self)
        ensures
            r.acpi is None,
            r.apic is None,
    {
        Features { acpi: None, apic: None }
    }
}

/// `<driver name="..." type="..."/>`.
pub struct DiskDriver {
    pub name: String,
    /// Image format, such as `qcow2` or `raw`.
    pub kind: String,
}

/// `<source file="..."/>`.
pub struct DiskSource {
    pub file: String,
}

/// `<target dev="..." bus="..."/>`.
pub struct DiskTarget {
    pub dev: String,
    pub bus: String,
}

/// A disk or CD-ROM backed by a file.
pub struct Disk {
    pub kind: String,
    pub device: String,
    pub driver: DiskDriver,
    pub source: DiskSource,
    pub target: DiskTarget,
    pub readonly: Option<Empty>,
}

impl Disk {
    /// Attaches an existing image as a virtio disk; storage is created separately.
    pub fn file(path: &str, target: &str, format: &str) -> (r: Self)
        ensures
            r.kind@ == "file"@,
            r.device@ == "disk"@,
            r.driver.name@ == "qemu"@,
            r.driver.kind@ == format@,
            r.source.file@ == path@,
            r.target.dev@ == target@,
            r.target.bus@ == "virtio"@,
            r.readonly is None,
    {
        Disk {
            kind: String::from_str("file"),
            device: String::from_str("disk"),
            driver: DiskDriver { name: String::from_str("qemu"), kind: String::from_str(format) },
            source: DiskSource { file: String::from_str(path) },
            target: DiskTarget { dev: String::from_str(target), bus: String::from_str("virtio") },
            readonly: None,
        }
    }

    /// Attaches an ISO as a read-only SATA CD-ROM.
    pub fn cdrom(path: &str, target: &str) -> (r: Self)
        ensures
            r.kind@ == "file"@,
            r.device@ == "cdrom"@,
            r.driver.name@ == "qemu"@,
            r.driver.kind@ == "raw"@,
            r.source.file@ == path@,
            r.target.dev@ == target@,
            r.target.bus@ == "sata"@,
            r.readonly == Some(Empty {}),
    {
        let mut disk = Self::file(path, target, "raw");
        disk.device = String::from_str("cdrom");
        disk.target.bus = String::from_str("sata");
        disk.readonly = Some(Empty {});
        disk
    }
}

/// `<mac address="..."/>`.
pub struct Mac {
    pub address: String,
}

/// `<source network="..."/>`.
pub struct InterfaceSource {
    pub network: String,
}

/// `<model type="..."/>`.
pub struct InterfaceModel {
    pub kind: String,
}

/// A network interface.
pub struct Interface {
    pub kind: String,
    /// Libvirt generates a MAC address when this is omitted.
    pub mac: Option<Mac>,
    pub source: InterfaceSource,
    pub model: InterfaceModel,
}

impl Interface {
    /// A virtio interface on the libvirt network `name`, without a fixed MAC address.
    pub fn network(name: &str) -> (r: Self)
        ensures
            r.kind@ == "network"@,
            r.mac is None,
            r.source.network@ == name@,
            r.model.kind@ == "virtio"@,
    {
        Interface {
            kind: String::from_str("network"),
            mac: None,
            source: InterfaceSource { network: String::from_str(name) },
            model: InterfaceModel { kind: String::from_str("virtio") },
        }
    }
}

/// `<target type="..." port="..."/>` of a console.
pub struct ConsoleTarget {
    pub kind: String,
    pub port: u32,
}

/// A console.
pub struct Console {
    pub kind: String,
    pub target: ConsoleTarget,
}

impl Console {
    /// The serial console on port 0, reached through a pseudo-terminal.
    pub fn serial() -> (r: Self)
        ensures
            r.kind@ == "pty"@,
            r.target.kind@ == "serial"@,
            r.target.port == 0,
    {
        Console {
            kind: String::from_str("pty"),
            target: ConsoleTarget { kind: String::from_str("serial"), port: 0 },
        }
    }
}

/// `<target type="..." name="..."/>` of a channel.
pub struct ChannelTarget {
    pub kind: String,
    pub name: String,
}

/// A host-guest channel.
pub struct Channel {
    pub kind: String,
    pub target: ChannelTarget,
}

impl Channel {
    /// The QEMU guest-agent channel; libvirt chooses its Unix socket path.
    pub fn guest_agent() -> (r: Self)
        ensures
            r.kind@ == "unix"@,
            r.target.kind@ == "virtio"@,
            r.target.name@ == "org.qemu.guest_agent.0"@,
    {
        Channel {
            kind: String::from_str("unix"),
            target: ChannelTarget {
                kind: String::from_str("virtio"),
                name: String::from_str("org.qemu.guest_agent.0"),
            },
        }
    }
}

/// The guest's devices.
pub struct Devices {
    pub disks: Vec<Disk>,
    pub interfaces: Vec<Interface>,
    pub consoles: Vec<Console>,
    pub channels: Vec<Channel>,
}

impl Default for Devices {
    /// No devices.
    fn default() -> (r: Self)
        ensures
            r.disks@.len() == 0,
            r.interfaces@.len() == 0,
            r.consoles@.len() == 0,
            r.channels@.len() == 0,
    {
        Devices {
            disks: Vec::new(),
            interfaces: Vec::new(),
            consoles: Vec::new(),
            channels: Vec::new(),
        }
    }
}

/// A libvirt domain.
pub struct Domain {
    pub kind: String,
    pub name: String,
    /// Libvirt generates a UUID when this is omitted.
    pub uuid: Option<String>,
    pub memory: Memory,
    pub vcpu: u32,
    pub os: Os,
    pub features: Features,
    pub cpu: Cpu,
    pub devices: Devices,
}

impl Domain {
    /// A KVM guest named `name` with `memory_mib` MiB and `vcpus` CPUs: x86_64
    /// `q35`, hard-disk boot, ACPI and APIC on, the host's CPU passed through,
    /// no UUID and no devices yet. Attach devices before defining the guest.
    pub fn new(name: &str, memory_mib: u64, vcpus: u32) -> (r: Self)
        ensures
            r.kind@ == "kvm"@,
            r.name@ == name@,
            r.uuid is None,
            r.memory.unit@ == "MiB"@,
            r.memory.value == memory_mib,
            r.vcpu == vcpus,
            r.os.kind.arch@ == "x86_64"@,
            r.os.kind.machine@ == "q35"@,
            r.os.kind.value@ == "hvm"@,
            r.os.boot@.len() == 1,
            r.os.boot@[0].dev@ == "hd"@,
            r.features.acpi == Some(Empty {}),
            r.features.apic == Some(Empty {}),
            r.cpu.mode@ == "host-passthrough"@,
            r.devices.disks@.len() == 0,
            r.devices.interfaces@.len() == 0,
            r.devices.consoles@.len() == 0,
            r.devices.channels@.len() == 0,
    {
        Domain {
            kind: String::from_str("kvm"),
            name: String::from_str(name),
            uuid: None,
            memory: Memory::mib(memory_mib),
            vcpu: vcpus,
            os: Os::default(),
            features: Features { acpi: Some(Empty {}), apic: Some(Empty {}) },
            cpu: Cpu { mode: String::from_str("host-passthrough") },
            devices: Devices::default(),
        }
    }
}

} // verus!
