//! The XML text of a domain definition.
//!
//! Elements appear in field order; an element without content is written
//! self-closed (`<devices/>`); absent optional parts and empty device lists
//! are left out. Text escapes `&`, `<`, `>` and carriage returns; attribute
//! values, which are double-quoted, also escape `"`, newlines and tabs.
use vstd::prelude::*;

use crate::libvirt::libvirt_domain::{
    Boot, Channel, Console, Devices, Disk, Domain, Features, Interface, Mac, Os,
};
use crate::text::{append_u64_text, chars_of, nat_text, push_char};

verus! {

/// What one character becomes in text (`attr == false`) or in a
/// double-quoted attribute value (`attr == true`).
pub open spec fn escaped_char(c: char, attr: bool) -> Seq<char> {
    if c == '&' {
        "&amp;"@
    } else if c == '<' {
        "&lt;"@
    } else if c == '>' {
        "&gt;"@
    } else if c == '\r' {
        "&#13;"@
    } else if attr && c == '"' {
        "&quot;"@
    } else if attr && c == '\n' {
        "&#10;"@
    } else if attr && c == '\t' {
        "&#9;"@
    } else {
        seq![c]
    }
}

/// `s` with every character escaped.
pub open spec fn escape(s: Seq<char>, attr: bool) -> Seq<char>
    decreases s.len(),
{
    if s.len() == 0 {
        Seq::empty()
    } else {
        escape(s.drop_last(), attr) + escaped_char(s.last(), attr)
    }
}

/// ` name="value"`.
pub open spec fn attribute(name: Seq<char>, value: Seq<char>) -> Seq<char> {
    " "@ + name + "=\""@ + escape(value, true) + "\""@
}

/// `<name attrs>content</name>`, or `<name attrs/>` when there is no content.
pub open spec fn element(name: Seq<char>, attrs: Seq<char>, content: Seq<char>) -> Seq<char> {
    if content.len() == 0 {
        "<"@ + name + attrs + "/>"@
    } else {
        "<"@ + name + attrs + ">"@ + content + "</"@ + name + ">"@
    }
}

/// `<name>text</name>` with the text escaped.
pub open spec fn text_element(name: Seq<char>, text: Seq<char>) -> Seq<char> {
    element(name, Seq::empty(), escape(text, false))
}

pub open spec fn presence(name: Seq<char>, present: bool) -> Seq<char> {
    if present {
        element(name, Seq::empty(), Seq::empty())
    } else {
        Seq::empty()
    }
}

pub open spec fn boot_xml(boot: Boot) -> Seq<char> {
    element("boot"@, attribute("dev"@, boot.dev@), Seq::empty())
}

pub open spec fn os_xml(os: Os) -> Seq<char> {
    element(
        "os"@,
        Seq::empty(),
        element(
            "type"@,
            attribute("arch"@, os.kind.arch@) + attribute("machine"@, os.kind.machine@),
            escape(os.kind.value@, false),
        ) + boots_xml(os.boot@),
    )
}

pub open spec fn features_xml(features: Features) -> Seq<char> {
    if features.acpi is None && features.apic is None {
        Seq::empty()
    } else {
        element(
            "features"@,
            Seq::empty(),
            presence("acpi"@, features.acpi is Some) + presence("apic"@, features.apic is Some),
        )
    }
}

pub open spec fn disk_xml(disk: Disk) -> Seq<char> {
    element(
        "disk"@,
        attribute("type"@, disk.kind@) + attribute("device"@, disk.device@),
        element(
            "driver"@,
            attribute("name"@, disk.driver.name@) + attribute("type"@, disk.driver.kind@),
            Seq::empty(),
        ) + element("source"@, attribute("file"@, disk.source.file@), Seq::empty()) + element(
            "target"@,
            attribute("dev"@, disk.target.dev@) + attribute("bus"@, disk.target.bus@),
            Seq::empty(),
        ) + presence("readonly"@, disk.readonly is Some),
    )
}

pub open spec fn mac_xml(mac: Option<Mac>) -> Seq<char> {
    match mac {
        Some(m) => element("mac"@, attribute("address"@, m.address@), Seq::empty()),
        None => Seq::empty(),
    }
}

pub open spec fn interface_xml(interface: Interface) -> Seq<char> {
    element(
        "interface"@,
        attribute("type"@, interface.kind@),
        mac_xml(interface.mac) + element(
            "source"@,
            attribute("network"@, interface.source.network@),
            Seq::empty(),
        ) + element("model"@, attribute("type"@, interface.model.kind@), Seq::empty()),
    )
}

pub open spec fn console_xml(console: Console) -> Seq<char> {
    element(
        "console"@,
        attribute("type"@, console.kind@),
        element(
            "target"@,
            attribute("type"@, console.target.kind@) + attribute(
                "port"@,
                nat_text(console.target.port as nat),
            ),
            Seq::empty(),
        ),
    )
}

pub open spec fn channel_xml(channel: Channel) -> Seq<char> {
    element(
        "channel"@,
        attribute("type"@, channel.kind@),
        element(
            "target"@,
            attribute("type"@, channel.target.kind@) + attribute("name"@, channel.target.name@),
            Seq::empty(),
        ),
    )
}

/// The XML of each item, one after the other.
pub open spec fn boots_xml(items: Seq<Boot>) -> Seq<char>
    decreases items.len(),
{
    if items.len() == 0 {
        Seq::empty()
    } else {
        boots_xml(items.drop_last()) + boot_xml(items.last())
    }
}

/// The XML of each item, one after the other.
pub open spec fn disks_xml(items: Seq<Disk>) -> Seq<char>
    decreases items.len(),
{
    if items.len() == 0 {
        Seq::empty()
    } else {
        disks_xml(items.drop_last()) + disk_xml(items.last())
    }
}

/// The XML of each item, one after the other.
pub open spec fn interfaces_xml(items: Seq<Interface>) -> Seq<char>
    decreases items.len(),
{
    if items.len() == 0 {
        Seq::empty()
    } else {
        interfaces_xml(items.drop_last()) + interface_xml(items.last())
    }
}

/// The XML of each item, one after the other.
pub open spec fn consoles_xml(items: Seq<Console>) -> Seq<char>
    decreases items.len(),
{
    if items.len() == 0 {
        Seq::empty()
    } else {
        consoles_xml(items.drop_last()) + console_xml(items.last())
    }
}

/// The XML of each item, one after the other.
pub open spec fn channels_xml(items: Seq<Channel>) -> Seq<char>
    decreases items.len(),
{
    if items.len() == 0 {
        Seq::empty()
    } else {
        channels_xml(items.drop_last()) + channel_xml(items.last())
    }
}

pub open spec fn devices_xml(devices: Devices) -> Seq<char> {
    element(
        "devices"@,
        Seq::empty(),
        disks_xml(devices.disks@) + interfaces_xml(devices.interfaces@) + consoles_xml(
            devices.consoles@,
        ) + channels_xml(devices.channels@),
    )
}

pub open spec fn uuid_xml(uuid: Option<String>) -> Seq<char> {
    match uuid {
        Some(u) => text_element("uuid"@, u@),
        None => Seq::empty(),
    }
}

/// The XML text of a domain definition.
pub open spec fn domain_xml(domain: Domain) -> Seq<char> {
    element(
        "domain"@,
        attribute("type"@, domain.kind@),
        text_element("name"@, domain.name@) + uuid_xml(domain.uuid) + element(
            "memory"@,
            attribute("unit"@, domain.memory.unit@),
            nat_text(domain.memory.value as nat),
        ) + element("vcpu"@, Seq::empty(), nat_text(domain.vcpu as nat)) + os_xml(domain.os)
            + features_xml(domain.features) + element(
            "cpu"@,
            attribute("mode"@, domain.cpu.mode@),
            Seq::empty(),
        ) + devices_xml(domain.devices),
    )
}

// ---------------------------------------------------------------------------
// Writing

/// Appends `s`, escaped.
fn push_escaped(out: &mut String, s: &str, attr: bool)
    ensures
        final(out)@ == old(out)@ + escape(s@, attr),
{
    let v = chars_of(s);
    let ghost start = out@;
    let mut i: usize = 0;
    while i < v.len()
        invariant
            i <= v.len(),
            out@ == start + escape(v@.take(i as int), attr),
        decreases v.len() - i,
    {
        let c = v[i];
        proof {
            assert(v@.take(i + 1).drop_last() =~= v@.take(i as int));
            assert(v@.take(i + 1).last() == c);
        }
        let ghost before = out@;
        if c == '&' {
            out.append("&amp;");
        } else if c == '<' {
            out.append("&lt;");
        } else if c == '>' {
            out.append("&gt;");
        } else if c == '\r' {
            out.append("&#13;");
        } else if attr && c == '"' {
            out.append("&quot;");
        } else if attr && c == '\n' {
            out.append("&#10;");
        } else if attr && c == '\t' {
            out.append("&#9;");
        } else {
            push_char(out, c);
        }
        assert(out@ == before + escaped_char(c, attr));
        i = i + 1;
        assert(out@ =~= start + escape(v@.take(i as int), attr));
    }
    assert(v@.take(v@.len() as int) =~= v@);
}

/// Appends ` name="value"`.
fn push_attribute(out: &mut String, name: &str, value: &str)
    ensures
        final(out)@ == old(out)@ + attribute(name@, value@),
{
    out.append(" ");
    out.append(name);
    out.append("=\"");
    push_escaped(out, value, true);
    out.append("\"");
    assert(final(out)@ =~= old(out)@ + attribute(name@, value@));
}

/// `<name attrs>content</name>`, or `<name attrs/>` without content.
fn element_text(name: &str, attrs: &str, content: &str) -> (r: String)
    ensures
        r@ == element(name@, attrs@, content@),
{
    let mut r = String::from_str("<");
    r.append(name);
    r.append(attrs);
    if chars_of(content).len() == 0 {
        r.append("/>");
    } else {
        r.append(">");
        r.append(content);
        r.append("</");
        r.append(name);
        r.append(">");
    }
    r
}

/// `<name>text</name>` with the text escaped.
fn text_element_text(name: &str, text: &str) -> (r: String)
    ensures
        r@ == text_element(name@, text@),
{
    proof {
        reveal_strlit("");
    }
    let mut content = String::new();
    push_escaped(&mut content, text, false);
    assert(content@ =~= escape(text@, false));
    element_text(name, "", content.as_str())
}

fn presence_text(name: &str, present: bool) -> (r: String)
    ensures
        r@ == presence(name@, present),
{
    proof {
        reveal_strlit("");
    }
    if present {
        element_text(name, "", "")
    } else {
        String::new()
    }
}

fn os_text(os: &Os) -> (r: String)
    ensures
        r@ == os_xml(*os),
{
    proof {
        reveal_strlit("");
    }
    let mut attrs = String::new();
    push_attribute(&mut attrs, "arch", os.kind.arch.as_str());
    push_attribute(&mut attrs, "machine", os.kind.machine.as_str());
    let mut value = String::new();
    push_escaped(&mut value, os.kind.value.as_str(), false);
    assert(value@ =~= escape(os.kind.value@, false));
    let mut content = element_text("type", attrs.as_str(), value.as_str());
    let ghost start = content@;
    let mut i: usize = 0;
    while i < os.boot.len()
        invariant
            i <= os.boot.len(),
            content@ == start + boots_xml(os.boot@.take(i as int)),
        decreases os.boot.len() - i,
    {
        let mut a = String::new();
        push_attribute(&mut a, "dev", os.boot[i].dev.as_str());
        assert(a@ =~= attribute("dev"@, os.boot@[i as int].dev@));
        let b = element_text("boot", a.as_str(), "");
        proof {
            reveal_strlit("");
        }
        assert(b@ == boot_xml(os.boot@[i as int]));
        let ghost before = content@;
        content.append(b.as_str());
        proof {
            let t = os.boot@.take(i + 1);
            assert(t.drop_last() =~= os.boot@.take(i as int));
            assert(t.last() == os.boot@[i as int]);
            assert(boots_xml(t) == boots_xml(t.drop_last()) + boot_xml(t.last()));
            assert(content@ =~= start + boots_xml(t));
        }
        i = i + 1;
    }
    assert(os.boot@.take(os.boot@.len() as int) =~= os.boot@);
    element_text("os", "", content.as_str())
}

fn features_text(features: &Features) -> (r: String)
    ensures
        r@ == features_xml(*features),
{
    proof {
        reveal_strlit("");
    }
    if features.is_empty() {
        return String::new();
    }
    let mut content = presence_text("acpi", features.acpi.is_some());
    let apic = presence_text("apic", features.apic.is_some());
    content.append(apic.as_str());
    element_text("features", "", content.as_str())
}

fn disk_text(disk: &Disk) -> (r: String)
    ensures
        r@ == disk_xml(*disk),
{
    proof {
        reveal_strlit("");
    }
    let mut attrs = String::new();
    push_attribute(&mut attrs, "type", disk.kind.as_str());
    push_attribute(&mut attrs, "device", disk.device.as_str());
    let mut driver = String::new();
    push_attribute(&mut driver, "name", disk.driver.name.as_str());
    push_attribute(&mut driver, "type", disk.driver.kind.as_str());
    let mut source = String::new();
    push_attribute(&mut source, "file", disk.source.file.as_str());
    let mut target = String::new();
    push_attribute(&mut target, "dev", disk.target.dev.as_str());
    push_attribute(&mut target, "bus", disk.target.bus.as_str());
    let mut content = element_text("driver", driver.as_str(), "");
    let s = element_text("source", source.as_str(), "");
    content.append(s.as_str());
    let t = element_text("target", target.as_str(), "");
    content.append(t.as_str());
    let ro = presence_text("readonly", disk.readonly.is_some());
    content.append(ro.as_str());
    element_text("disk", attrs.as_str(), content.as_str())
}

fn interface_text(interface: &Interface) -> (r: String)
    ensures
        r@ == interface_xml(*interface),
{
    proof {
        reveal_strlit("");
    }
    let mut attrs = String::new();
    push_attribute(&mut attrs, "type", interface.kind.as_str());
    let mut content = match &interface.mac {
        Some(m) => {
            let mut a = String::new();
            push_attribute(&mut a, "address", m.address.as_str());
            element_text("mac", a.as_str(), "")
        },
        None => String::new(),
    };
    let mut source = String::new();
    push_attribute(&mut source, "network", interface.source.network.as_str());
    let s = element_text("source", source.as_str(), "");
    content.append(s.as_str());
    let mut model = String::new();
    push_attribute(&mut model, "type", interface.model.kind.as_str());
    let m = element_text("model", model.as_str(), "");
    content.append(m.as_str());
    element_text("interface", attrs.as_str(), content.as_str())
}

fn console_text(console: &Console) -> (r: String)
    ensures
        r@ == console_xml(*console),
{
    proof {
        reveal_strlit("");
    }
    let mut attrs = String::new();
    push_attribute(&mut attrs, "type", console.kind.as_str());
    let mut target = String::new();
    push_attribute(&mut target, "type", console.target.kind.as_str());
    let mut port = String::new();
    append_u64_text(&mut port, console.target.port as u64);
    assert(port@ =~= nat_text(console.target.port as nat));
    push_attribute(&mut target, "port", port.as_str());
    let content = element_text("target", target.as_str(), "");
    element_text("console", attrs.as_str(), content.as_str())
}

fn channel_text(channel: &Channel) -> (r: String)
    ensures
        r@ == channel_xml(*channel),
{
    proof {
        reveal_strlit("");
    }
    let mut attrs = String::new();
    push_attribute(&mut attrs, "type", channel.kind.as_str());
    let mut target = String::new();
    push_attribute(&mut target, "type", channel.target.kind.as_str());
    push_attribute(&mut target, "name", channel.target.name.as_str());
    let content = element_text("target", target.as_str(), "");
    element_text("channel", attrs.as_str(), content.as_str())
}

fn disks_text(items: &Vec<Disk>) -> (r: String)
    ensures
        r@ == disks_xml(items@),
{
    let mut content = String::new();
    let mut i: usize = 0;
    while i < items.len()
        invariant
            i <= items.len(),
            content@ == disks_xml(items@.take(i as int)),
        decreases items.len() - i,
    {
        let t = disk_text(&items[i]);
        content.append(t.as_str());
        proof {
            let s = items@.take(i + 1);
            assert(s.drop_last() =~= items@.take(i as int));
            assert(s.last() == items@[i as int]);
            assert(content@ =~= disks_xml(s));
        }
        i = i + 1;
    }
    proof {
        assert(items@.take(0) =~= Seq::<Disk>::empty());
        assert(items@.take(items@.len() as int) =~= items@);
    }
    content
}

fn interfaces_text(items: &Vec<Interface>) -> (r: String)
    ensures
        r@ == interfaces_xml(items@),
{
    let mut content = String::new();
    let mut i: usize = 0;
    while i < items.len()
        invariant
            i <= items.len(),
            content@ == interfaces_xml(items@.take(i as int)),
        decreases items.len() - i,
    {
        let t = interface_text(&items[i]);
        content.append(t.as_str());
        proof {
            let s = items@.take(i + 1);
            assert(s.drop_last() =~= items@.take(i as int));
            assert(s.last() == items@[i as int]);
            assert(content@ =~= interfaces_xml(s));
        }
        i = i + 1;
    }
    proof {
        assert(items@.take(0) =~= Seq::<Interface>::empty());
        assert(items@.take(items@.len() as int) =~= items@);
    }
    content
}

fn consoles_text(items: &Vec<Console>) -> (r: String)
    ensures
        r@ == consoles_xml(items@),
{
    let mut content = String::new();
    let mut i: usize = 0;
    while i < items.len()
        invariant
            i <= items.len(),
            content@ == consoles_xml(items@.take(i as int)),
        decreases items.len() - i,
    {
        let t = console_text(&items[i]);
        content.append(t.as_str());
        proof {
            let s = items@.take(i + 1);
            assert(s.drop_last() =~= items@.take(i as int));
            assert(s.last() == items@[i as int]);
            assert(content@ =~= consoles_xml(s));
        }
        i = i + 1;
    }
    proof {
        assert(items@.take(0) =~= Seq::<Console>::empty());
        assert(items@.take(items@.len() as int) =~= items@);
    }
    content
}

fn channels_text(items: &Vec<Channel>) -> (r: String)
    ensures
        r@ == channels_xml(items@),
{
    let mut content = String::new();
    let mut i: usize = 0;
    while i < items.len()
        invariant
            i <= items.len(),
            content@ == channels_xml(items@.take(i as int)),
        decreases items.len() - i,
    {
        let t = channel_text(&items[i]);
        content.append(t.as_str());
        proof {
            let s = items@.take(i + 1);
            assert(s.drop_last() =~= items@.take(i as int));
            assert(s.last() == items@[i as int]);
            assert(content@ =~= channels_xml(s));
        }
        i = i + 1;
    }
    proof {
        assert(items@.take(0) =~= Seq::<Channel>::empty());
        assert(items@.take(items@.len() as int) =~= items@);
    }
    content
}

fn devices_text(devices: &Devices) -> (r: String)
    ensures
        r@ == devices_xml(*devices),
{
    proof {
        reveal_strlit("");
    }
    let mut content = disks_text(&devices.disks);
    let i = interfaces_text(&devices.interfaces);
    content.append(i.as_str());
    let c = consoles_text(&devices.consoles);
    content.append(c.as_str());
    let h = channels_text(&devices.channels);
    content.append(h.as_str());
    element_text("devices", "", content.as_str())
}

impl Domain {
    /// The domain definition as XML, for libvirt's `define_xml`.
    pub fn to_xml(&self) -> (r: String)
        ensures
            r@ == domain_xml(*self),
    {
        proof {
            reveal_strlit("");
        }
        let mut attrs = String::new();
        push_attribute(&mut attrs, "type", self.kind.as_str());
        let mut content = text_element_text("name", self.name.as_str());
        match &self.uuid {
            Some(u) => {
                let t = text_element_text("uuid", u.as_str());
                content.append(t.as_str());
            },
            None => {},
        }
        let mut unit = String::new();
        push_attribute(&mut unit, "unit", self.memory.unit.as_str());
        let mut mem = String::new();
        append_u64_text(&mut mem, self.memory.value);
        assert(mem@ =~= nat_text(self.memory.value as nat));
        let m = element_text("memory", unit.as_str(), mem.as_str());
        content.append(m.as_str());
        let mut vcpu = String::new();
        append_u64_text(&mut vcpu, self.vcpu as u64);
        assert(vcpu@ =~= nat_text(self.vcpu as nat));
        let v = element_text("vcpu", "", vcpu.as_str());
        content.append(v.as_str());
        let o = os_text(&self.os);
        content.append(o.as_str());
        let f = features_text(&self.features);
        content.append(f.as_str());
        let mut mode = String::new();
        push_attribute(&mut mode, "mode", self.cpu.mode.as_str());
        let c = element_text("cpu", mode.as_str(), "");
        content.append(c.as_str());
        let d = devices_text(&self.devices);
        content.append(d.as_str());
        element_text("domain", attrs.as_str(), content.as_str())
    }
}

/// The character that the start of `s` stands for, and how many characters
/// stand for it: one of the references that escaping writes (`&lt;`, `&gt;`,
/// `&amp;`, `&quot;`, `&#13;`, `&#10;`, `&#9;`), or else the first character
/// itself.
pub open spec fn first_char_read(s: Seq<char>) -> (char, nat)
    recommends
        s.len() > 0,
{
    if s.len() >= 4 && s[0] == '&' && s[1] == 'l' && s[2] == 't' && s[3] == ';' {
        ('<', 4)
    } else if s.len() >= 4 && s[0] == '&' && s[1] == 'g' && s[2] == 't' && s[3] == ';' {
        ('>', 4)
    } else if s.len() >= 5 && s[0] == '&' && s[1] == 'a' && s[2] == 'm' && s[3] == 'p' && s[4]
        == ';' {
        ('&', 5)
    } else if s.len() >= 6 && s[0] == '&' && s[1] == 'q' && s[2] == 'u' && s[3] == 'o' && s[4]
        == 't' && s[5] == ';' {
        ('"', 6)
    } else if s.len() >= 5 && s[0] == '&' && s[1] == '#' && s[2] == '1' && s[3] == '3' && s[4]
        == ';' {
        ('\r', 5)
    } else if s.len() >= 5 && s[0] == '&' && s[1] == '#' && s[2] == '1' && s[3] == '0' && s[4]
        == ';' {
        ('\n', 5)
    } else if s.len() >= 4 && s[0] == '&' && s[1] == '#' && s[2] == '9' && s[3] == ';' {
        ('\t', 4)
    } else {
        (s[0], 1)
    }
}

/// What an XML reader gives back for escaped text: every reference replaced
/// by the character it stands for.
pub open spec fn unescape(s: Seq<char>) -> Seq<char>
    decreases s.len(),
{
    if s.len() == 0 {
        Seq::empty()
    } else {
        let first = first_char_read(s);
        seq![first.0] + unescape(s.skip(first.1 as int))
    }
}

/// Escaped text holds no `<` and no carriage return, and an escaped attribute
/// value also no `"`, newline or tab: the text ends at the next markup, the
/// value at its closing quote, and a reader's line-end and whitespace
/// normalisation leaves either unchanged.
pub open spec fn reads_as_written(e: Seq<char>, attr: bool) -> bool {
    forall|i: int|
        0 <= i < e.len() ==> {
            let c = #[trigger] e[i];
            c != '<' && c != '\r' && (attr ==> c != '"' && c != '\n' && c != '\t')
        }
}

proof fn lemma_escape_front(s: Seq<char>, attr: bool)
    requires
        s.len() > 0,
    ensures
        escape(s, attr) == escaped_char(s[0], attr) + escape(s.skip(1), attr),
    decreases s.len(),
{
    if s.len() == 1 {
        assert(s.drop_last() =~= Seq::<char>::empty());
        assert(s.skip(1) =~= Seq::<char>::empty());
        assert(escape(s.drop_last(), attr).len() == 0);
        assert(escape(s.skip(1), attr).len() == 0);
        assert(s.last() == s[0]);
        assert(escape(s, attr) =~= escaped_char(s[0], attr));
        assert(escape(s, attr) =~= escaped_char(s[0], attr) + escape(s.skip(1), attr));
    } else {
        let d = s.drop_last();
        lemma_escape_front(d, attr);
        assert(d.skip(1) =~= s.skip(1).drop_last());
        assert(s.skip(1).last() == s.last());
        assert(escape(s.skip(1), attr) == escape(s.skip(1).drop_last(), attr) + escaped_char(
            s.skip(1).last(),
            attr,
        ));
        assert(escape(s, attr) =~= escaped_char(s[0], attr) + escape(s.skip(1), attr));
    }
}

proof fn lemma_first_char_read(c: char, t: Seq<char>, attr: bool)
    ensures
        first_char_read(escaped_char(c, attr) + t) == (c, escaped_char(c, attr).len()),
        (escaped_char(c, attr) + t).skip(escaped_char(c, attr).len() as int) =~= t,
{
    reveal_strlit("&amp;");
    reveal_strlit("&lt;");
    reveal_strlit("&gt;");
    reveal_strlit("&#13;");
    reveal_strlit("&quot;");
    reveal_strlit("&#10;");
    reveal_strlit("&#9;");
    let e = escaped_char(c, attr);
    let s = e + t;
    assert(forall|i: int| 0 <= i < e.len() ==> s[i] == e[i]);
}

proof fn lemma_escaped_char_reads_as_written(c: char, attr: bool)
    ensures
        reads_as_written(escaped_char(c, attr), attr),
{
    reveal_strlit("&amp;");
    reveal_strlit("&lt;");
    reveal_strlit("&gt;");
    reveal_strlit("&#13;");
    reveal_strlit("&quot;");
    reveal_strlit("&#10;");
    reveal_strlit("&#9;");
}

/// Escaped text and attribute values read back: resolving the references that
/// escaping wrote gives the original characters, and nothing in the escaped
/// form ends the text or value early or is changed by a reader's
/// normalisation.
pub proof fn lemma_escape_reads_back(s: Seq<char>, attr: bool)
    ensures
        unescape(escape(s, attr)) == s,
        reads_as_written(escape(s, attr), attr),
    decreases s.len(),
{
    if s.len() == 0 {
        assert(unescape(escape(s, attr)) =~= s);
    } else {
        let rest = s.skip(1);
        lemma_escape_front(s, attr);
        lemma_first_char_read(s[0], escape(rest, attr), attr);
        lemma_escape_reads_back(rest, attr);
        let e = escape(s, attr);
        assert(e.len() > 0);
        assert(unescape(e) == seq![s[0]] + unescape(escape(rest, attr)));
        assert(unescape(e) =~= s);
        let d = s.drop_last();
        lemma_escape_reads_back(d, attr);
        lemma_escaped_char_reads_as_written(s.last(), attr);
        let head = escape(d, attr);
        let tail = escaped_char(s.last(), attr);
        assert forall|i: int| 0 <= i < e.len() implies {
            let c = #[trigger] e[i];
            c != '<' && c != '\r' && (attr ==> c != '"' && c != '\n' && c != '\t')
        } by {
            if i < head.len() {
                assert(e[i] == head[i]);
            } else {
                assert(e[i] == tail[i - head.len()]);
            }
        }
    }
}

/// The optional parts of a domain's XML: the `<features>` element is written
/// exactly when ACPI or APIC is on, and then holds `<acpi/>` exactly when ACPI
/// is on and `<apic/>` exactly when APIC is on; the `<uuid>` element is written
/// exactly when the domain has a UUID.
pub proof fn lemma_optional_parts(domain: Domain)
    ensures
        features_xml(domain.features).len() > 0 <==> (domain.features.acpi is Some
            || domain.features.apic is Some),
        features_xml(domain.features).len() > 0 ==> features_xml(domain.features) == element(
            "features"@,
            Seq::empty(),
            presence("acpi"@, domain.features.acpi is Some) + presence(
                "apic"@,
                domain.features.apic is Some,
            ),
        ),
        uuid_xml(domain.uuid).len() > 0 <==> domain.uuid is Some,
        domain.uuid matches Some(u) ==> uuid_xml(domain.uuid) == text_element("uuid"@, u@),
{
    reveal_strlit("<");
    reveal_strlit("/>");
    reveal_strlit("features");
}

} // verus!
