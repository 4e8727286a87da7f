use andromeda::libvirt::generate_domain;
use andromeda::libvirt::libvirt_domain::{
    Boot, Channel, Console, Disk, Domain, Empty, Features, Interface, Mac,
};
use andromeda::model::{GuestUserConfig, InstanceConfig, NetworkConfig, VmConfig};
use andromeda::paths::StoragePaths;
use quick_xml::events::{BytesStart, Event};
use quick_xml::XmlVersion;
use quick_xml::Reader;
use std::path::Path;

fn reference_domain() -> Domain {
    let mut domain = Domain::new("vm-alice", 512, 1);
    domain.features = Features::default();
    domain.uuid = Some("0d45f535-cfeb-48de-800d-2b0ed8bb0bca".into());
    domain.devices.disks = vec![
        Disk::file("/var/lib/libvirt/images/vms/vm-alice.qcow2", "vda", "qcow2"),
        Disk::cdrom("/var/lib/libvirt/images/seed/vm-alice.iso", "sda"),
    ];
    let mut interface = Interface::network("andromeda-users");
    interface.mac = Some(Mac {
        address: "52:54:00:10:00:01".into(),
    });
    domain.devices.interfaces.push(interface);
    domain.devices.consoles.push(Console::serial());
    domain.devices.channels.push(Channel::guest_agent());
    domain
}

/// Every `file` attribute of a `<source>` element, in document order, unescaped.
fn source_files(xml: &str) -> Vec<String> {
    let mut reader = Reader::from_str(xml);
    let mut files = Vec::new();
    loop {
        match reader.read_event().unwrap() {
            Event::Start(e) | Event::Empty(e) if e.name().0 == "source" => {
                for attr in e.attributes() {
                    let attr = attr.unwrap();
                    if attr.key.0 == "file" {
                        files.push(attr.unescape_value().unwrap().into_owned());
                    }
                }
            }
            Event::Eof => break,
            _ => {}
        }
    }
    files
}

/// One element of a parsed document: its name, its attributes with their values
/// unescaped, its character data with references resolved, and its child elements.
#[derive(Default)]
struct Node {
    name: String,
    attrs: Vec<(String, String)>,
    text: String,
    children: Vec<Node>,
}

fn open_node(e: &BytesStart) -> Node {
    let mut node = Node {
        name: e.name().0.to_string(),
        ..Node::default()
    };
    for attr in e.attributes() {
        let attr = attr.unwrap();
        let value = attr.normalized_value(XmlVersion::Implicit1_0).unwrap();
        node.attrs.push((attr.key.0.to_string(), value.into_owned()));
    }
    node
}

/// Parses a whole document with quick_xml and returns its root element.
fn read_tree(xml: &str) -> Node {
    let mut reader = Reader::from_str(xml);
    let mut stack = vec![Node::default()];
    loop {
        match reader.read_event().unwrap() {
            Event::Start(e) => stack.push(open_node(&e)),
            Event::Empty(e) => {
                let node = open_node(&e);
                stack.last_mut().unwrap().children.push(node);
            }
            Event::End(e) => {
                let node = stack.pop().unwrap();
                assert_eq!(node.name, e.name().0);
                stack.last_mut().unwrap().children.push(node);
            }
            Event::Text(t) => stack.last_mut().unwrap().text.push_str(&t.xml10_content()),
            Event::GeneralRef(r) => {
                let resolved = match r.resolve_char_ref().unwrap() {
                    Some(c) => c.to_string(),
                    None => quick_xml::escape::resolve_predefined_entity(&r.xml10_content())
                        .unwrap()
                        .to_string(),
                };
                stack.last_mut().unwrap().text.push_str(&resolved);
            }
            Event::Eof => break,
            other => panic!("unexpected XML event: {other:?}"),
        }
    }
    assert_eq!(stack.len(), 1);
    let mut document = stack.pop().unwrap();
    assert_eq!(document.children.len(), 1);
    document.children.pop().unwrap()
}

fn attr(node: &Node, key: &str) -> String {
    let found: Vec<&String> = node.attrs.iter().filter(|(k, _)| k == key).map(|(_, v)| v).collect();
    assert_eq!(found.len(), 1, "attribute {key} of <{}>", node.name);
    found[0].clone()
}

fn all<'a>(node: &'a Node, name: &str) -> Vec<&'a Node> {
    node.children.iter().filter(|c| c.name == name).collect()
}

fn optional<'a>(node: &'a Node, name: &str) -> Option<&'a Node> {
    let found = all(node, name);
    assert!(found.len() <= 1, "<{name}> repeated in <{}>", node.name);
    found.into_iter().next()
}

fn one<'a>(node: &'a Node, name: &str) -> &'a Node {
    optional(node, name).unwrap_or_else(|| panic!("<{name}> missing in <{}>", node.name))
}

/// Asserts that `node` holds exactly the attributes and child elements named.
fn only_has(node: &Node, attrs: &[&str], children: &[&str]) {
    for (key, _) in &node.attrs {
        assert!(attrs.contains(&key.as_str()), "unexpected attribute {key} on <{}>", node.name);
    }
    for child in &node.children {
        assert!(
            children.contains(&child.name.as_str()),
            "unexpected <{}> in <{}>",
            child.name,
            node.name
        );
    }
    if !children.is_empty() {
        assert_eq!(node.text, "", "text in <{}>", node.name);
    }
}

fn flag(node: &Node, name: &str) -> Option<Empty> {
    optional(node, name).map(|n| {
        only_has(n, &[], &[]);
        assert_eq!(n.text, "");
        Empty {}
    })
}

fn read_features(node: &Node) -> Features {
    only_has(node, &[], &["acpi", "apic"]);
    Features {
        acpi: flag(node, "acpi"),
        apic: flag(node, "apic"),
    }
}

/// Reads a `<domain>` document back into the value it describes, element by
/// element and attribute by attribute.
fn read_domain(xml: &str) -> Domain {
    let root = read_tree(xml);
    assert_eq!(root.name, "domain");
    only_has(
        &root,
        &["type"],
        &["name", "uuid", "memory", "vcpu", "os", "features", "cpu", "devices"],
    );
    let mut domain = Domain::new("", 0, 0);
    domain.kind = attr(&root, "type");
    domain.name = one(&root, "name").text.clone();
    domain.uuid = optional(&root, "uuid").map(|n| n.text.clone());
    let memory = one(&root, "memory");
    only_has(memory, &["unit"], &[]);
    domain.memory.unit = attr(memory, "unit");
    domain.memory.value = memory.text.parse().unwrap();
    domain.vcpu = one(&root, "vcpu").text.parse().unwrap();
    let os = one(&root, "os");
    only_has(os, &[], &["type", "boot"]);
    let os_type = one(os, "type");
    only_has(os_type, &["arch", "machine"], &[]);
    domain.os.kind.arch = attr(os_type, "arch");
    domain.os.kind.machine = attr(os_type, "machine");
    domain.os.kind.value = os_type.text.clone();
    domain.os.boot = all(os, "boot")
        .into_iter()
        .map(|b| {
            only_has(b, &["dev"], &[]);
            Boot { dev: attr(b, "dev") }
        })
        .collect();
    domain.features = match optional(&root, "features") {
        Some(n) => read_features(n),
        None => Features { acpi: None, apic: None },
    };
    let cpu = one(&root, "cpu");
    only_has(cpu, &["mode"], &[]);
    domain.cpu.mode = attr(cpu, "mode");
    let devices = one(&root, "devices");
    only_has(devices, &[], &["disk", "interface", "console", "channel"]);
    domain.devices.disks = all(devices, "disk")
        .into_iter()
        .map(|d| {
            only_has(d, &["type", "device"], &["driver", "source", "target", "readonly"]);
            let mut disk = Disk::file("", "", "");
            disk.kind = attr(d, "type");
            disk.device = attr(d, "device");
            let driver = one(d, "driver");
            only_has(driver, &["name", "type"], &[]);
            disk.driver.name = attr(driver, "name");
            disk.driver.kind = attr(driver, "type");
            let source = one(d, "source");
            only_has(source, &["file"], &[]);
            disk.source.file = attr(source, "file");
            let target = one(d, "target");
            only_has(target, &["dev", "bus"], &[]);
            disk.target.dev = attr(target, "dev");
            disk.target.bus = attr(target, "bus");
            disk.readonly = flag(d, "readonly");
            disk
        })
        .collect();
    domain.devices.interfaces = all(devices, "interface")
        .into_iter()
        .map(|i| {
            only_has(i, &["type"], &["mac", "source", "model"]);
            let mut interface = Interface::network("");
            interface.kind = attr(i, "type");
            interface.mac = optional(i, "mac").map(|m| {
                only_has(m, &["address"], &[]);
                Mac { address: attr(m, "address") }
            });
            let source = one(i, "source");
            only_has(source, &["network"], &[]);
            interface.source.network = attr(source, "network");
            let model = one(i, "model");
            only_has(model, &["type"], &[]);
            interface.model.kind = attr(model, "type");
            interface
        })
        .collect();
    domain.devices.consoles = all(devices, "console")
        .into_iter()
        .map(|c| {
            only_has(c, &["type"], &["target"]);
            let mut console = Console::serial();
            console.kind = attr(c, "type");
            let target = one(c, "target");
            only_has(target, &["type", "port"], &[]);
            console.target.kind = attr(target, "type");
            console.target.port = attr(target, "port").parse().unwrap();
            console
        })
        .collect();
    domain.devices.channels = all(devices, "channel")
        .into_iter()
        .map(|c| {
            only_has(c, &["type"], &["target"]);
            let mut channel = Channel::guest_agent();
            channel.kind = attr(c, "type");
            let target = one(c, "target");
            only_has(target, &["type", "name"], &[]);
            channel.target.kind = attr(target, "type");
            channel.target.name = attr(target, "name");
            channel
        })
        .collect();
    domain
}

/// Every field of a domain, written out so that two domains can be compared.
fn dump(d: &Domain) -> String {
    let mut out = format!(
        "kind={:?} name={:?} uuid={:?} memory={:?}/{} vcpu={} os={:?}/{:?}/{:?} boot={:?} acpi={:?} apic={:?} cpu={:?}",
        d.kind,
        d.name,
        d.uuid,
        d.memory.unit,
        d.memory.value,
        d.vcpu,
        d.os.kind.arch,
        d.os.kind.machine,
        d.os.kind.value,
        d.os.boot.iter().map(|b| b.dev.clone()).collect::<Vec<_>>(),
        d.features.acpi,
        d.features.apic,
        d.cpu.mode,
    );
    for disk in &d.devices.disks {
        out += &format!(
            " disk({:?} {:?} {:?} {:?} {:?} {:?} {:?} {:?})",
            disk.kind,
            disk.device,
            disk.driver.name,
            disk.driver.kind,
            disk.source.file,
            disk.target.dev,
            disk.target.bus,
            disk.readonly
        );
    }
    for interface in &d.devices.interfaces {
        out += &format!(
            " interface({:?} {:?} {:?} {:?})",
            interface.kind,
            interface.mac.as_ref().map(|m| m.address.clone()),
            interface.source.network,
            interface.model.kind
        );
    }
    for console in &d.devices.consoles {
        out += &format!(
            " console({:?} {:?} {})",
            console.kind, console.target.kind, console.target.port
        );
    }
    for channel in &d.devices.channels {
        out += &format!(
            " channel({:?} {:?} {:?})",
            channel.kind, channel.target.kind, channel.target.name
        );
    }
    out
}

fn reads_back_as(xml: &str, domain: &Domain) {
    assert_eq!(dump(&read_domain(xml)), dump(domain), "{xml}");
}

#[test]
fn domain_xml_uses_the_supplied_storage_layout() {
    let storage = StoragePaths::at("/custom storage/images & templates");
    let paths = storage.instance("vm-alice").unwrap();
    let config = VmConfig {
        user: GuestUserConfig {
            name: "alice".into(),
            key: String::new(),
        },
        networking: NetworkConfig {
            ip: String::new(),
            dhcp: true,
            mac: "52:54:00:10:00:01".into(),
            remote_port: 22,
            service_port: 25565,
        },
        instance: InstanceConfig {
            hostname: "vm-alice".into(),
            disk_size: 1024,
            memory: 512,
            vcpus: 1,
            description: String::new(),
        },
    };
    let (xml, _) = generate_domain(&config, &paths).unwrap();
    let files = source_files(&xml);
    assert_eq!(Path::new(&files[0]), Path::new(&paths.disk));
    assert_eq!(Path::new(&files[1]), Path::new(&paths.seed_iso));
    assert_eq!(
        Path::new(&paths.disk).parent(),
        Some(Path::new(&storage.instances()))
    );
    assert_eq!(
        Path::new(&paths.seed_iso).parent(),
        Some(Path::new(&storage.seeds()))
    );
    assert_eq!(
        Path::new(&paths.cloud_image).parent(),
        Some(Path::new(&storage.templates()))
    );
}

#[test]
fn absent_fields_and_empty_device_lists_are_omitted() {
    let mut domain = Domain::new("minimal", 512, 1);
    domain.features = Features::default();
    let xml = domain.to_xml();
    assert!(!xml.contains("<uuid"));
    assert!(!xml.contains("<features"));
    assert!(xml.contains("<devices/>"));
    reads_back_as(&xml, &domain);
    let mut holder = Domain::new("minimal", 512, 1);
    holder.devices.interfaces.push(Interface::network("andromeda-users"));
    assert!(!holder.to_xml().contains("<mac"));
}

#[test]
fn optional_guest_features_round_trip() {
    for (features_xml, acpi, apic) in [
        ("<features><acpi/><apic/></features>", true, true),
        ("<features><acpi/></features>", true, false),
        ("<features><apic/></features>", false, true),
        ("<features/>", false, false),
    ] {
        let features = Features {
            acpi: if acpi { Some(Empty {}) } else { None },
            apic: if apic { Some(Empty {}) } else { None },
        };
        let read = read_features(&read_tree(features_xml));
        assert_eq!((read.acpi, read.apic), (features.acpi, features.apic));
        let mut domain = Domain::new("features", 512, 1);
        let empty = features.is_empty();
        domain.features = features;
        let xml = domain.to_xml();
        if empty {
            assert!(!xml.contains("<features"), "{xml}");
        } else {
            assert!(xml.contains(features_xml), "{xml}");
        }
        reads_back_as(&xml, &domain);
    }
}

#[test]
fn text_and_attributes_are_escaped() {
    let mut domain = reference_domain();
    domain.name = "vm<&>".into();
    domain.devices.disks[0].source.file = "/images/a&b\"<disk>.qcow2".into();
    let xml = domain.to_xml();
    assert!(xml.contains("<name>vm&lt;&amp;&gt;</name>"));
    assert!(xml.contains("file=\"/images/a&amp;b&quot;&lt;disk&gt;.qcow2\""));
    reads_back_as(&xml, &domain);
}

#[test]
fn reference_domain_serializes_in_field_order() {
    let xml = reference_domain().to_xml();
    reads_back_as(&xml, &reference_domain());
    assert_eq!(
        xml,
        "<domain type=\"kvm\"><name>vm-alice</name><uuid>0d45f535-cfeb-48de-800d-2b0ed8bb0bca</uuid><memory unit=\"MiB\">512</memory><vcpu>1</vcpu><os><type arch=\"x86_64\" machine=\"q35\">hvm</type><boot dev=\"hd\"/></os><cpu mode=\"host-passthrough\"/><devices><disk type=\"file\" device=\"disk\"><driver name=\"qemu\" type=\"qcow2\"/><source file=\"/var/lib/libvirt/images/vms/vm-alice.qcow2\"/><target dev=\"vda\" bus=\"virtio\"/></disk><disk type=\"file\" device=\"cdrom\"><driver name=\"qemu\" type=\"raw\"/><source file=\"/var/lib/libvirt/images/seed/vm-alice.iso\"/><target dev=\"sda\" bus=\"sata\"/><readonly/></disk><interface type=\"network\"><mac address=\"52:54:00:10:00:01\"/><source network=\"andromeda-users\"/><model type=\"virtio\"/></interface><console type=\"pty\"><target type=\"serial\" port=\"0\"/></console><channel type=\"unix\"><target type=\"virtio\" name=\"org.qemu.guest_agent.0\"/></channel></devices></domain>"
    );
}

#[test]
fn new_domains_enable_acpi_and_apic() {
    let xml = Domain::new("vm", 2048, 4).to_xml();
    assert!(xml.contains("<features><acpi/><apic/></features>"));
    assert!(xml.contains("<memory unit=\"MiB\">2048</memory><vcpu>4</vcpu>"));
}

#[test]
fn generated_domains_get_a_random_v4_uuid() {
    let paths = StoragePaths::default().instance("vm-a").unwrap();
    let config = VmConfig {
        user: GuestUserConfig { name: "a".into(), key: String::new() },
        networking: NetworkConfig {
            ip: "10.0.0.2".into(),
            dhcp: false,
            mac: "52:54:00:00:00:02".into(),
            remote_port: 2222,
            service_port: 8080,
        },
        instance: InstanceConfig {
            hostname: "vm-a".into(),
            disk_size: 10240,
            memory: 1024,
            vcpus: 2,
            description: String::new(),
        },
    };
    let (first_xml, first) = generate_domain(&config, &paths).unwrap();
    let (_, second) = generate_domain(&config, &paths).unwrap();
    assert_ne!(first, second);
    assert_eq!(first.len(), 36);
    assert_eq!(first.as_bytes()[14], b'4');
    assert!(first_xml.contains(&format!("<uuid>{first}</uuid>")));
    assert!(first_xml.contains("<mac address=\"52:54:00:00:00:02\"/>"));
    assert!(first_xml.contains("<target dev=\"sdb\" bus=\"virtio\"/>"));
}

#[test]
fn carriage_returns_and_attribute_whitespace_are_escaped() {
    let mut domain = Domain::new("a\rb", 1, 1);
    domain.cpu.mode = "x\ty\nz\"".into();
    let xml = domain.to_xml();
    assert!(xml.contains("<name>a&#13;b</name>"));
    assert!(xml.contains("<cpu mode=\"x&#9;y&#10;z&quot;\"/>"));
    reads_back_as(&xml, &domain);
}

#[test]
fn empty_names_are_self_closed() {
    let xml = Domain::new("", 1, 1).to_xml();
    assert!(xml.contains("<name/>"));
}
