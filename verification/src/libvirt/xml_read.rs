//! Reading a domain definition back from its XML text.
//!
//! A reader here takes the text from the front and gives back what it read
//! together with the rest of the text, or `None` where the text does not
//! have the expected form. The laws at the end state that the XML written for
//! a domain reads back as that domain.
use vstd::prelude::*;

use crate::text::{digit_char, nat_text};
use crate::libvirt::libvirt_domain::{
    Boot, Channel, Console, Devices, Disk, Domain, Features, Interface, Os,
};
use crate::libvirt::xml::{
    attribute, boot_xml, boots_xml, channel_xml, channels_xml, console_xml, consoles_xml,
    devices_xml, disk_xml, disks_xml, domain_xml, element, escape, features_xml, interface_xml,
    interfaces_xml, lemma_escape_reads_back, mac_xml, os_xml, presence, reads_as_written,
    text_element, unescape, uuid_xml,
};

verus! {

/// `s` without the literal `lit` at its front; `None` when `s` does not
/// start with `lit`.
pub open spec fn after(s: Seq<char>, lit: Seq<char>) -> Option<Seq<char>> {
    if lit.len() <= s.len() && s.take(lit.len() as int) == lit {
        Some(s.skip(lit.len() as int))
    } else {
        None
    }
}

/// The position of the first `stop` in `s`, or its length when there is none.
pub open spec fn stop_index(s: Seq<char>, stop: char) -> nat
    decreases s.len(),
{
    if s.len() == 0 || s[0] == stop {
        0
    } else {
        1 + stop_index(s.skip(1), stop)
    }
}

/// The escaped characters before the first `stop`, unescaped, and the text
/// from that `stop` on.
pub open spec fn read_text(s: Seq<char>, stop: char) -> (Seq<char>, Seq<char>) {
    let k = stop_index(s, stop) as int;
    (unescape(s.take(k)), s.skip(k))
}

/// An attribute ` name="value"`: its unescaped value and the rest.
pub open spec fn read_attribute(s: Seq<char>, name: Seq<char>) -> Option<(Seq<char>, Seq<char>)> {
    match after(s, " "@ + name + "=\""@) {
        Some(r) => {
            let (value, r2) = read_text(r, '"');
            match after(r2, "\""@) {
                Some(r3) => Some((value, r3)),
                None => None,
            }
        },
        None => None,
    }
}

/// A text element `<name>text</name>` or `<name/>`: its unescaped text and
/// the rest.
pub open spec fn read_text_element(s: Seq<char>, name: Seq<char>) -> Option<(Seq<char>, Seq<char>)> {
    match after(s, "<"@ + name) {
        Some(r) => match after(r, "/>"@) {
            Some(r2) => Some((Seq::empty(), r2)),
            None => match after(r, ">"@) {
                Some(r3) => {
                    let (text, r4) = read_text(r3, '<');
                    match after(r4, "</"@ + name + ">"@) {
                        Some(r5) => Some((text, r5)),
                        None => None,
                    }
                },
                None => None,
            },
        },
        None => None,
    }
}

pub proof fn lemma_after(lit: Seq<char>, r: Seq<char>)
    ensures
        after(lit + r, lit) == Some(r),
{
    assert((lit + r).take(lit.len() as int) =~= lit);
    assert((lit + r).skip(lit.len() as int) =~= r);
}

/// `s` does not start with `lit` where the two differ at position `i`.
pub proof fn lemma_not_after(s: Seq<char>, lit: Seq<char>, i: int)
    requires
        0 <= i < lit.len(),
        i < s.len(),
        s[i] != lit[i],
    ensures
        after(s, lit) is None,
{
    if lit.len() <= s.len() && s.take(lit.len() as int) == lit {
        assert(s.take(lit.len() as int)[i] == s[i]);
    }
}

proof fn lemma_stop_index(e: Seq<char>, r: Seq<char>, stop: char)
    requires
        forall|i: int| 0 <= i < e.len() ==> e[i] != stop,
        r.len() > 0,
        r[0] == stop,
    ensures
        stop_index(e + r, stop) == e.len(),
    decreases e.len(),
{
    if e.len() == 0 {
        assert(e + r =~= r);
    } else {
        assert((e + r).skip(1) =~= e.skip(1) + r);
        lemma_stop_index(e.skip(1), r, stop);
    }
}

proof fn lemma_read_escaped(v: Seq<char>, attr: bool, stop: char, r: Seq<char>)
    requires
        stop == '<' || (attr && stop == '"'),
        r.len() > 0,
        r[0] == stop,
    ensures
        read_text(escape(v, attr) + r, stop) == (v, r),
{
    lemma_escape_reads_back(v, attr);
    let e = escape(v, attr);
    assert(reads_as_written(e, attr));
    assert forall|i: int| 0 <= i < e.len() implies e[i] != stop by {
        assert(e[i] != '<');
    }
    lemma_stop_index(e, r, stop);
    assert((e + r).take(e.len() as int) =~= e);
    assert((e + r).skip(e.len() as int) =~= r);
}

pub proof fn lemma_read_attribute(name: Seq<char>, value: Seq<char>, r: Seq<char>)
    ensures
        read_attribute(attribute(name, value) + r, name) == Some((value, r)),
{
    let open = " "@ + name + "=\""@;
    let rest = escape(value, true) + ("\""@ + r);
    assert(attribute(name, value) + r =~= open + rest);
    lemma_after(open, rest);
    reveal_strlit("\"");
    lemma_read_escaped(value, true, '"', "\""@ + r);
    lemma_after("\""@, r);
}

pub proof fn lemma_read_text_element(name: Seq<char>, text: Seq<char>, r: Seq<char>)
    ensures
        read_text_element(text_element(name, text) + r, name) == Some((text, r)),
{
    reveal_strlit("<");
    reveal_strlit("/>");
    reveal_strlit(">");
    reveal_strlit("</");
    let e = escape(text, false);
    lemma_escape_reads_back(text, false);
    if e.len() == 0 {
        assert(text =~= Seq::<char>::empty()) by {
            assert(unescape(e) =~= Seq::<char>::empty());
        }
        assert(text_element(name, text) + r =~= ("<"@ + name) + ("/>"@ + r));
        lemma_after("<"@ + name, "/>"@ + r);
        lemma_after("/>"@, r);
    } else {
        let close = "</"@ + name + ">"@;
        assert(text_element(name, text) + r =~= ("<"@ + name) + (">"@ + (e + (close + r))));
        lemma_after("<"@ + name, ">"@ + (e + (close + r)));
        lemma_not_after(">"@ + (e + (close + r)), "/>"@, 0);
        lemma_after(">"@, e + (close + r));
        lemma_read_escaped(text, false, '<', close + r);
        lemma_after(close, r);
    }
}

/// The number that the decimal digits `s` write.
pub open spec fn digits_value(s: Seq<char>) -> nat
    decreases s.len(),
{
    if s.len() == 0 {
        0
    } else {
        digits_value(s.drop_last()) * 10 + ((s.last() as int - 48) as nat)
    }
}

/// An element `<name attrs>digits</name>` whose attributes have been read:
/// the number and the rest.
pub open spec fn read_number_content(s: Seq<char>, name: Seq<char>) -> Option<(nat, Seq<char>)> {
    match after(s, ">"@) {
        Some(r) => {
            let (text, r2) = read_text(r, '<');
            match after(r2, "</"@ + name + ">"@) {
                Some(r3) => Some((digits_value(text), r3)),
                None => None,
            }
        },
        None => None,
    }
}

proof fn lemma_nat_text(n: nat)
    ensures
        nat_text(n).len() > 0,
        digits_value(nat_text(n)) == n,
        forall|i: int| 0 <= i < nat_text(n).len() ==> {
            let c = #[trigger] nat_text(n)[i];
            '0' <= c <= '9'
        },
        escape(nat_text(n), false) == nat_text(n),
        escape(nat_text(n), true) == nat_text(n),
    decreases n,
{
    let t = nat_text(n);
    if n < 10 {
        assert(t.drop_last() =~= Seq::<char>::empty());
        assert(escape(t.drop_last(), false) =~= Seq::<char>::empty());
        assert(escape(t.drop_last(), true) =~= Seq::<char>::empty());
        assert(digits_value(t.drop_last()) == 0);
        assert(t.last() as int == 48 + n);
        assert(digits_value(t) == n);
        assert(escape(t, false) =~= t);
        assert(escape(t, true) =~= t);
    } else {
        lemma_nat_text(n / 10);
        let d = digit_char((n % 10) as int);
        assert(t.drop_last() =~= nat_text(n / 10));
        assert(t.last() == d);
        assert(d as int == 48 + n % 10);
        assert(digits_value(t) == digits_value(nat_text(n / 10)) * 10 + n % 10);
        assert(digits_value(t) == n);
        assert(escape(t, false) =~= t);
        assert(escape(t, true) =~= t);
    }
}

proof fn lemma_read_number_content(name: Seq<char>, n: nat, r: Seq<char>)
    ensures
        read_number_content(">"@ + nat_text(n) + ("</"@ + name + ">"@) + r, name) == Some((n, r)),
{
    reveal_strlit(">");
    reveal_strlit("</");
    lemma_nat_text(n);
    let close = "</"@ + name + ">"@;
    assert(">"@ + nat_text(n) + close + r =~= ">"@ + (escape(nat_text(n), false) + (close + r)));
    lemma_after(">"@, escape(nat_text(n), false) + (close + r));
    lemma_read_escaped(nat_text(n), false, '<', close + r);
    assert(unescape(escape(nat_text(n), false)) == nat_text(n)) by {
        lemma_escape_reads_back(nat_text(n), false);
    }
    lemma_after(close, r);
}

/// The XML of each item, one after the other.
pub open spec fn joined<T>(items: Seq<T>, f: spec_fn(T) -> Seq<char>) -> Seq<char>
    decreases items.len(),
{
    if items.len() == 0 {
        Seq::empty()
    } else {
        joined(items.drop_last(), f) + f(items.last())
    }
}

/// Items read one after the other for as long as the text starts with
/// `start`: what was read and the rest.
pub open spec fn read_list<M>(
    s: Seq<char>,
    start: Seq<char>,
    item: spec_fn(Seq<char>) -> Option<(M, Seq<char>)>,
) -> Option<(Seq<M>, Seq<char>)>
    decreases s.len(),
{
    if after(s, start) is Some {
        match item(s) {
            Some(first) => if first.1.len() < s.len() {
                match read_list(first.1, start, item) {
                    Some(more) => Some((seq![first.0] + more.0, more.1)),
                    None => None,
                }
            } else {
                None
            },
            None => None,
        }
    } else {
        Some((Seq::empty(), s))
    }
}

proof fn lemma_joined_front<T>(items: Seq<T>, f: spec_fn(T) -> Seq<char>)
    requires
        items.len() > 0,
    ensures
        joined(items, f) == f(items[0]) + joined(items.skip(1), f),
    decreases items.len(),
{
    if items.len() == 1 {
        assert(items.drop_last() =~= Seq::<T>::empty());
        assert(items.skip(1) =~= Seq::<T>::empty());
        assert(joined(items.drop_last(), f).len() == 0);
        assert(joined(items.skip(1), f).len() == 0);
        assert(joined(items, f) =~= f(items[0]) + joined(items.skip(1), f));
    } else {
        let d = items.drop_last();
        lemma_joined_front(d, f);
        assert(d.skip(1) =~= items.skip(1).drop_last());
        assert(items.skip(1).last() == items.last());
        assert(joined(items, f) =~= f(items[0]) + joined(items.skip(1), f));
    }
}

/// Reading a list back: items written one after the other, each starting
/// with `start` and read back by `item`, followed by text that does not
/// start with `start`, read back as the items' models.
pub proof fn lemma_read_list<T, M>(
    items: Seq<T>,
    f: spec_fn(T) -> Seq<char>,
    model: spec_fn(T) -> M,
    start: Seq<char>,
    item: spec_fn(Seq<char>) -> Option<(M, Seq<char>)>,
    r: Seq<char>,
)
    requires
        forall|x: T, rest: Seq<char>| #[trigger] item(f(x) + rest) == Some((model(x), rest)),
        forall|x: T|
            #![trigger f(x)]
            start.len() <= f(x).len() && f(x).take(start.len() as int) == start,
        start.len() > 0,
        after(r, start) is None,
    ensures
        read_list(joined(items, f) + r, start, item) == Some((items.map_values(model), r)),
    decreases items.len(),
{
    if items.len() == 0 {
        assert(joined(items, f) + r =~= r);
        assert(items.map_values(model) =~= Seq::<M>::empty());
    } else {
        let x = items[0];
        let rest = joined(items.skip(1), f) + r;
        lemma_joined_front(items, f);
        let s = joined(items, f) + r;
        assert(s =~= f(x) + rest);
        assert(s.take(start.len() as int) =~= f(x).take(start.len() as int));
        assert(item(f(x) + rest) == Some((model(x), rest)));
        lemma_read_list(items.skip(1), f, model, start, item, r);
        assert(items.map_values(model) =~= seq![model(x)] + items.skip(1).map_values(model));
    }
}

/// An element without content and with one attribute, `<name a="v"/>`: the
/// attribute's value and the rest.
pub open spec fn read_empty_1(s: Seq<char>, name: Seq<char>, a: Seq<char>) -> Option<(Seq<char>, Seq<char>)> {
    match after(s, "<"@ + name) {
        Some(r) => match read_attribute(r, a) {
            Some(x) => match after(x.1, "/>"@) {
                Some(r2) => Some((x.0, r2)),
                None => None,
            },
            None => None,
        },
        None => None,
    }
}

/// An element without content and with two attributes,
/// `<name a="v" b="w"/>`: the values and the rest.
pub open spec fn read_empty_2(s: Seq<char>, name: Seq<char>, a: Seq<char>, b: Seq<char>) -> Option<
    ((Seq<char>, Seq<char>), Seq<char>),
> {
    match after(s, "<"@ + name) {
        Some(r) => match read_attribute(r, a) {
            Some(x) => match read_attribute(x.1, b) {
                Some(y) => match after(y.1, "/>"@) {
                    Some(r2) => Some(((x.0, y.0), r2)),
                    None => None,
                },
                None => None,
            },
            None => None,
        },
        None => None,
    }
}

/// The start tag `<name a="v">` of an element with content: the attribute's
/// value and the rest, from the content on.
pub open spec fn read_open_1(s: Seq<char>, name: Seq<char>, a: Seq<char>) -> Option<(Seq<char>, Seq<char>)> {
    match after(s, "<"@ + name) {
        Some(r) => match read_attribute(r, a) {
            Some(x) => match after(x.1, ">"@) {
                Some(r2) => Some((x.0, r2)),
                None => None,
            },
            None => None,
        },
        None => None,
    }
}

/// The start tag `<name a="v" b="w">` of an element with content.
pub open spec fn read_open_2(s: Seq<char>, name: Seq<char>, a: Seq<char>, b: Seq<char>) -> Option<
    ((Seq<char>, Seq<char>), Seq<char>),
> {
    match after(s, "<"@ + name) {
        Some(r) => match read_attribute(r, a) {
            Some(x) => match read_attribute(x.1, b) {
                Some(y) => match after(y.1, ">"@) {
                    Some(r2) => Some(((x.0, y.0), r2)),
                    None => None,
                },
                None => None,
            },
            None => None,
        },
        None => None,
    }
}

/// The end tag `</name>`.
pub open spec fn close_tag(name: Seq<char>) -> Seq<char> {
    "</"@ + name + ">"@
}

/// An optional element `<name/>`: whether it is there, and the rest.
pub open spec fn read_flag(s: Seq<char>, name: Seq<char>) -> (bool, Seq<char>) {
    match after(s, "<"@ + name + "/>"@) {
        Some(r) => (true, r),
        None => (false, s),
    }
}

pub proof fn lemma_read_empty_1(name: Seq<char>, a: Seq<char>, v: Seq<char>, r: Seq<char>)
    ensures
        read_empty_1(element(name, attribute(a, v), Seq::empty()) + r, name, a) == Some((v, r)),
{
    let open = "<"@ + name;
    assert(element(name, attribute(a, v), Seq::empty()) + r =~= open + (attribute(a, v) + (
    "/>"@ + r)));
    lemma_after(open, attribute(a, v) + ("/>"@ + r));
    lemma_read_attribute(a, v, "/>"@ + r);
    lemma_after("/>"@, r);
}

pub proof fn lemma_read_empty_2(
    name: Seq<char>,
    a: Seq<char>,
    v: Seq<char>,
    b: Seq<char>,
    w: Seq<char>,
    r: Seq<char>,
)
    ensures
        read_empty_2(
            element(name, attribute(a, v) + attribute(b, w), Seq::empty()) + r,
            name,
            a,
            b,
        ) == Some(((v, w), r)),
{
    let open = "<"@ + name;
    let tail = attribute(b, w) + ("/>"@ + r);
    assert(element(name, attribute(a, v) + attribute(b, w), Seq::empty()) + r =~= open + (
    attribute(a, v) + tail));
    lemma_after(open, attribute(a, v) + tail);
    lemma_read_attribute(a, v, tail);
    lemma_read_attribute(b, w, "/>"@ + r);
    lemma_after("/>"@, r);
}

pub proof fn lemma_read_open_1(
    name: Seq<char>,
    a: Seq<char>,
    v: Seq<char>,
    content: Seq<char>,
    r: Seq<char>,
)
    requires
        content.len() > 0,
    ensures
        read_open_1(element(name, attribute(a, v), content) + r, name, a) == Some(
            (v, content + (close_tag(name) + r)),
        ),
{
    let open = "<"@ + name;
    let tail = content + (close_tag(name) + r);
    assert(element(name, attribute(a, v), content) + r =~= open + (attribute(a, v) + (">"@
        + tail)));
    lemma_after(open, attribute(a, v) + (">"@ + tail));
    lemma_read_attribute(a, v, ">"@ + tail);
    lemma_after(">"@, tail);
}

pub proof fn lemma_read_open_2(
    name: Seq<char>,
    a: Seq<char>,
    v: Seq<char>,
    b: Seq<char>,
    w: Seq<char>,
    content: Seq<char>,
    r: Seq<char>,
)
    requires
        content.len() > 0,
    ensures
        read_open_2(element(name, attribute(a, v) + attribute(b, w), content) + r, name, a, b)
            == Some(((v, w), content + (close_tag(name) + r))),
{
    let open = "<"@ + name;
    let tail = content + (close_tag(name) + r);
    assert(element(name, attribute(a, v) + attribute(b, w), content) + r =~= open + (attribute(
        a,
        v,
    ) + (attribute(b, w) + (">"@ + tail))));
    lemma_after(open, attribute(a, v) + (attribute(b, w) + (">"@ + tail)));
    lemma_read_attribute(a, v, attribute(b, w) + (">"@ + tail));
    lemma_read_attribute(b, w, ">"@ + tail);
    lemma_after(">"@, tail);
}

/// An element with content and no attributes starts with `<name>`.
pub proof fn lemma_read_open_0(name: Seq<char>, content: Seq<char>, r: Seq<char>)
    requires
        content.len() > 0,
    ensures
        after(element(name, Seq::empty(), content) + r, "<"@ + name + ">"@) == Some(
            content + (close_tag(name) + r),
        ),
{
    assert(element(name, Seq::empty(), content) + r =~= ("<"@ + name + ">"@) + (content + (
    close_tag(name) + r)));
    lemma_after("<"@ + name + ">"@, content + (close_tag(name) + r));
}

/// What a disk's XML says of it.
pub struct DiskModel {
    pub kind: Seq<char>,
    pub device: Seq<char>,
    pub driver_name: Seq<char>,
    pub driver_kind: Seq<char>,
    pub file: Seq<char>,
    pub target_dev: Seq<char>,
    pub target_bus: Seq<char>,
    pub readonly: bool,
}

/// What an interface's XML says of it.
pub struct InterfaceModel {
    pub kind: Seq<char>,
    pub mac: Option<Seq<char>>,
    pub network: Seq<char>,
    pub model: Seq<char>,
}

/// What a console's XML says of it.
pub struct ConsoleModel {
    pub kind: Seq<char>,
    pub target_kind: Seq<char>,
    pub port: nat,
}

/// What a channel's XML says of it.
pub struct ChannelModel {
    pub kind: Seq<char>,
    pub target_kind: Seq<char>,
    pub target_name: Seq<char>,
}

pub open spec fn disk_model(d: Disk) -> DiskModel {
    DiskModel {
        kind: d.kind@,
        device: d.device@,
        driver_name: d.driver.name@,
        driver_kind: d.driver.kind@,
        file: d.source.file@,
        target_dev: d.target.dev@,
        target_bus: d.target.bus@,
        readonly: d.readonly is Some,
    }
}

pub open spec fn interface_model(i: Interface) -> InterfaceModel {
    InterfaceModel {
        kind: i.kind@,
        mac: match i.mac {
            Some(m) => Some(m.address@),
            None => None,
        },
        network: i.source.network@,
        model: i.model.kind@,
    }
}

pub open spec fn console_model(c: Console) -> ConsoleModel {
    ConsoleModel { kind: c.kind@, target_kind: c.target.kind@, port: c.target.port as nat }
}

pub open spec fn channel_model(c: Channel) -> ChannelModel {
    ChannelModel { kind: c.kind@, target_kind: c.target.kind@, target_name: c.target.name@ }
}

/// A `<disk>` element and the rest.
#[verifier::opaque]
pub open spec fn read_disk(s: Seq<char>) -> Option<(DiskModel, Seq<char>)> {
    match read_open_2(s, "disk"@, "type"@, "device"@) {
        Some(o) => match read_empty_2(o.1, "driver"@, "name"@, "type"@) {
            Some(dr) => match read_empty_1(dr.1, "source"@, "file"@) {
                Some(src) => match read_empty_2(src.1, "target"@, "dev"@, "bus"@) {
                    Some(t) => {
                        let ro = read_flag(t.1, "readonly"@);
                        match after(ro.1, close_tag("disk"@)) {
                            Some(r) => Some(
                                (
                                    DiskModel {
                                        kind: o.0.0,
                                        device: o.0.1,
                                        driver_name: dr.0.0,
                                        driver_kind: dr.0.1,
                                        file: src.0,
                                        target_dev: t.0.0,
                                        target_bus: t.0.1,
                                        readonly: ro.0,
                                    },
                                    r,
                                ),
                            ),
                            None => None,
                        }
                    },
                    None => None,
                },
                None => None,
            },
            None => None,
        },
        None => None,
    }
}

/// An `<interface>` element and the rest.
#[verifier::opaque]
pub open spec fn read_interface(s: Seq<char>) -> Option<(InterfaceModel, Seq<char>)> {
    match read_open_1(s, "interface"@, "type"@) {
        Some(o) => {
            let mac: Option<(Seq<char>, Seq<char>)> = if after(o.1, "<mac"@) is Some {
                read_empty_1(o.1, "mac"@, "address"@)
            } else {
                None
            };
            let after_mac = match mac {
                Some(m) => m.1,
                None => o.1,
            };
            match read_empty_1(after_mac, "source"@, "network"@) {
                Some(src) => match read_empty_1(src.1, "model"@, "type"@) {
                    Some(m) => match after(m.1, close_tag("interface"@)) {
                        Some(r) => Some(
                            (
                                InterfaceModel {
                                    kind: o.0,
                                    mac: match mac {
                                        Some(x) => Some(x.0),
                                        None => None,
                                    },
                                    network: src.0,
                                    model: m.0,
                                },
                                r,
                            ),
                        ),
                        None => None,
                    },
                    None => None,
                },
                None => None,
            }
        },
        None => None,
    }
}

/// A `<console>` element and the rest.
#[verifier::opaque]
pub open spec fn read_console(s: Seq<char>) -> Option<(ConsoleModel, Seq<char>)> {
    match read_open_1(s, "console"@, "type"@) {
        Some(o) => match read_empty_2(o.1, "target"@, "type"@, "port"@) {
            Some(t) => match after(t.1, close_tag("console"@)) {
                Some(r) => Some(
                    (
                        ConsoleModel { kind: o.0, target_kind: t.0.0, port: digits_value(t.0.1) },
                        r,
                    ),
                ),
                None => None,
            },
            None => None,
        },
        None => None,
    }
}

/// A `<channel>` element and the rest.
#[verifier::opaque]
pub open spec fn read_channel(s: Seq<char>) -> Option<(ChannelModel, Seq<char>)> {
    match read_open_1(s, "channel"@, "type"@) {
        Some(o) => match read_empty_2(o.1, "target"@, "type"@, "name"@) {
            Some(t) => match after(t.1, close_tag("channel"@)) {
                Some(r) => Some(
                    (ChannelModel { kind: o.0, target_kind: t.0.0, target_name: t.0.1 }, r),
                ),
                None => None,
            },
            None => None,
        },
        None => None,
    }
}

pub proof fn lemma_read_disk(d: Disk, r: Seq<char>)
    ensures
        read_disk(disk_xml(d) + r) == Some((disk_model(d), r)),
{
    reveal(read_disk);
    reveal_strlit("<");
    reveal_strlit("</");
    reveal_strlit("/>");
    reveal_strlit("readonly");
    let driver = element(
        "driver"@,
        attribute("name"@, d.driver.name@) + attribute("type"@, d.driver.kind@),
        Seq::empty(),
    );
    let source = element("source"@, attribute("file"@, d.source.file@), Seq::empty());
    let target = element(
        "target"@,
        attribute("dev"@, d.target.dev@) + attribute("bus"@, d.target.bus@),
        Seq::empty(),
    );
    let ro = presence("readonly"@, d.readonly is Some);
    let content = driver + source + target + ro;
    let close = close_tag("disk"@) + r;
    reveal_strlit("driver");
    assert(content.len() > 0);
    lemma_read_open_2("disk"@, "type"@, d.kind@, "device"@, d.device@, content, r);
    assert(content + close =~= driver + (source + (target + (ro + close))));
    lemma_read_empty_2(
        "driver"@,
        "name"@,
        d.driver.name@,
        "type"@,
        d.driver.kind@,
        source + (target + (ro + close)),
    );
    lemma_read_empty_1("source"@, "file"@, d.source.file@, target + (ro + close));
    lemma_read_empty_2("target"@, "dev"@, d.target.dev@, "bus"@, d.target.bus@, ro + close);
    if d.readonly is Some {
        assert(ro =~= "<"@ + "readonly"@ + "/>"@);
        lemma_after("<"@ + "readonly"@ + "/>"@, close);
    } else {
        assert(ro + close =~= close);
        lemma_not_after(close, "<"@ + "readonly"@ + "/>"@, 1);
    }
    lemma_after(close_tag("disk"@), r);
}

pub proof fn lemma_read_interface(i: Interface, r: Seq<char>)
    ensures
        read_interface(interface_xml(i) + r) == Some((interface_model(i), r)),
{
    reveal(read_interface);
    reveal_strlit("<");
    reveal_strlit("<mac");
    reveal_strlit("source");
    let mac = mac_xml(i.mac);
    let source = element("source"@, attribute("network"@, i.source.network@), Seq::empty());
    let model = element("model"@, attribute("type"@, i.model.kind@), Seq::empty());
    let content = mac + source + model;
    let close = close_tag("interface"@) + r;
    assert(source.len() > 0);
    assert(content.len() > 0);
    lemma_read_open_1("interface"@, "type"@, i.kind@, content, r);
    assert(content + close =~= mac + (source + (model + close)));
    match i.mac {
        Some(m) => {
            let tail = source + (model + close);
            lemma_read_empty_1("mac"@, "address"@, m.address@, tail);
            reveal_strlit("mac");
            assert((mac + tail).take(4) =~= "<mac"@);
        },
        None => {
            assert(mac + (source + (model + close)) =~= source + (model + close));
            lemma_not_after(source + (model + close), "<mac"@, 1);
        },
    }
    lemma_read_empty_1("source"@, "network"@, i.source.network@, model + close);
    lemma_read_empty_1("model"@, "type"@, i.model.kind@, close);
    lemma_after(close_tag("interface"@), r);
}

pub proof fn lemma_read_console(c: Console, r: Seq<char>)
    ensures
        read_console(console_xml(c) + r) == Some((console_model(c), r)),
{
    reveal(read_console);
    let port = nat_text(c.target.port as nat);
    let target = element(
        "target"@,
        attribute("type"@, c.target.kind@) + attribute("port"@, port),
        Seq::empty(),
    );
    let close = close_tag("console"@) + r;
    reveal_strlit("<");
    assert(target.len() > 0);
    lemma_read_open_1("console"@, "type"@, c.kind@, target, r);
    lemma_read_empty_2("target"@, "type"@, c.target.kind@, "port"@, port, close);
    lemma_nat_text(c.target.port as nat);
    lemma_after(close_tag("console"@), r);
}

pub proof fn lemma_read_channel(c: Channel, r: Seq<char>)
    ensures
        read_channel(channel_xml(c) + r) == Some((channel_model(c), r)),
{
    reveal(read_channel);
    let target = element(
        "target"@,
        attribute("type"@, c.target.kind@) + attribute("name"@, c.target.name@),
        Seq::empty(),
    );
    let close = close_tag("channel"@) + r;
    reveal_strlit("<");
    assert(target.len() > 0);
    lemma_read_open_1("channel"@, "type"@, c.kind@, target, r);
    lemma_read_empty_2("target"@, "type"@, c.target.kind@, "name"@, c.target.name@, close);
    lemma_after(close_tag("channel"@), r);
}

/// What the XML of a domain definition says of the domain.
pub struct DomainModel {
    pub kind: Seq<char>,
    pub name: Seq<char>,
    pub uuid: Option<Seq<char>>,
    pub memory_unit: Seq<char>,
    pub memory: nat,
    pub vcpu: nat,
    pub os_arch: Seq<char>,
    pub os_machine: Seq<char>,
    pub os_type: Seq<char>,
    pub boot_devs: Seq<Seq<char>>,
    pub acpi: bool,
    pub apic: bool,
    pub cpu_mode: Seq<char>,
    pub disks: Seq<DiskModel>,
    pub interfaces: Seq<InterfaceModel>,
    pub consoles: Seq<ConsoleModel>,
    pub channels: Seq<ChannelModel>,
}

/// Every field of `d`, by its view. (`Option<Empty>` has one `Some` value, so
/// a flag is whether it is there.)
pub open spec fn domain_model(d: Domain) -> DomainModel {
    DomainModel {
        kind: d.kind@,
        name: d.name@,
        uuid: match d.uuid {
            Some(u) => Some(u@),
            None => None,
        },
        memory_unit: d.memory.unit@,
        memory: d.memory.value as nat,
        vcpu: d.vcpu as nat,
        os_arch: d.os.kind.arch@,
        os_machine: d.os.kind.machine@,
        os_type: d.os.kind.value@,
        boot_devs: d.os.boot@.map_values(|b: Boot| b.dev@),
        acpi: d.features.acpi is Some,
        apic: d.features.apic is Some,
        cpu_mode: d.cpu.mode@,
        disks: d.devices.disks@.map_values(|x: Disk| disk_model(x)),
        interfaces: d.devices.interfaces@.map_values(|x: Interface| interface_model(x)),
        consoles: d.devices.consoles@.map_values(|x: Console| console_model(x)),
        channels: d.devices.channels@.map_values(|x: Channel| channel_model(x)),
    }
}

/// `<type arch="a" machine="m">text</type>` (or self-closed when the text is
/// empty): the two attributes, the text and the rest.
#[verifier::opaque]
pub open spec fn read_os_type(s: Seq<char>) -> Option<((Seq<char>, Seq<char>, Seq<char>), Seq<char>)> {
    match after(s, "<type"@) {
        Some(r) => match read_attribute(r, "arch"@) {
            Some(a) => match read_attribute(a.1, "machine"@) {
                Some(m) => match after(m.1, "/>"@) {
                    Some(r2) => Some(((a.0, m.0, Seq::empty()), r2)),
                    None => match after(m.1, ">"@) {
                        Some(r3) => {
                            let t = read_text(r3, '<');
                            match after(t.1, close_tag("type"@)) {
                                Some(r4) => Some(((a.0, m.0, t.0), r4)),
                                None => None,
                            }
                        },
                        None => None,
                    },
                },
                None => None,
            },
            None => None,
        },
        None => None,
    }
}

/// The `<os>` element: architecture, machine, OS type, boot devices, rest.
#[verifier::opaque]
pub open spec fn read_os(s: Seq<char>) -> Option<
    ((Seq<char>, Seq<char>, Seq<char>, Seq<Seq<char>>), Seq<char>),
> {
    match after(s, "<os>"@) {
        Some(r) => match read_os_type(r) {
            Some(t) => match read_list(t.1, "<boot"@, |x: Seq<char>| read_empty_1(x, "boot"@, "dev"@)) {
                Some(b) => match after(b.1, close_tag("os"@)) {
                    Some(r2) => Some(((t.0.0, t.0.1, t.0.2, b.0), r2)),
                    None => None,
                },
                None => None,
            },
            None => None,
        },
        None => None,
    }
}

/// The optional `<features>` element: whether ACPI and APIC are on, and the
/// rest.
#[verifier::opaque]
pub open spec fn read_features(s: Seq<char>) -> Option<((bool, bool), Seq<char>)> {
    match after(s, "<features>"@) {
        Some(r) => {
            let acpi = read_flag(r, "acpi"@);
            let apic = read_flag(acpi.1, "apic"@);
            match after(apic.1, close_tag("features"@)) {
                Some(r2) => Some(((acpi.0, apic.0), r2)),
                None => None,
            }
        },
        None => Some(((false, false), s)),
    }
}

/// The device lists inside `<devices>`: disks, interfaces, consoles and
/// channels, one list after the other, and the rest.
#[verifier::opaque]
pub open spec fn read_device_lists(s: Seq<char>) -> Option<
    ((Seq<DiskModel>, Seq<InterfaceModel>, Seq<ConsoleModel>, Seq<ChannelModel>), Seq<char>),
> {
    match read_list(s, "<disk"@, |x: Seq<char>| read_disk(x)) {
        Some(ds) => match read_list(ds.1, "<interface"@, |x: Seq<char>| read_interface(x)) {
            Some(is) => match read_list(is.1, "<console"@, |x: Seq<char>| read_console(x)) {
                Some(cs) => match read_list(cs.1, "<channel"@, |x: Seq<char>| read_channel(x)) {
                    Some(hs) => Some(((ds.0, is.0, cs.0, hs.0), hs.1)),
                    None => None,
                },
                None => None,
            },
            None => None,
        },
        None => None,
    }
}

/// The `<devices>` element: the device lists and the rest.
#[verifier::opaque]
pub open spec fn read_devices(s: Seq<char>) -> Option<
    ((Seq<DiskModel>, Seq<InterfaceModel>, Seq<ConsoleModel>, Seq<ChannelModel>), Seq<char>),
> {
    match after(s, "<devices/>"@) {
        Some(r) => Some(((Seq::empty(), Seq::empty(), Seq::empty(), Seq::empty()), r)),
        None => match after(s, "<devices>"@) {
            Some(r) => match read_device_lists(r) {
                Some(lists) => match after(lists.1, close_tag("devices"@)) {
                    Some(r2) => Some((lists.0, r2)),
                    None => None,
                },
                None => None,
            },
            None => None,
        },
    }
}

/// The optional `<uuid>` element: the UUID if it is there, and the rest.
#[verifier::opaque]
pub open spec fn read_uuid(s: Seq<char>) -> Option<(Option<Seq<char>>, Seq<char>)> {
    if after(s, "<uuid"@) is Some {
        match read_text_element(s, "uuid"@) {
            Some(u) => Some((Some(u.0), u.1)),
            None => None,
        }
    } else {
        Some((None, s))
    }
}

/// `<memory unit="u">n</memory><vcpu>m</vcpu>`: the unit, the two numbers
/// and the rest.
#[verifier::opaque]
pub open spec fn read_sizes(s: Seq<char>) -> Option<((Seq<char>, nat, nat), Seq<char>)> {
    match after(s, "<memory"@) {
        Some(r) => match read_attribute(r, "unit"@) {
            Some(unit) => match read_number_content(unit.1, "memory"@) {
                Some(mem) => match after(mem.1, "<vcpu"@) {
                    Some(r2) => match read_number_content(r2, "vcpu"@) {
                        Some(v) => Some(((unit.0, mem.0, v.0), v.1)),
                        None => None,
                    },
                    None => None,
                },
                None => None,
            },
            None => None,
        },
        None => None,
    }
}

/// `<name>`, the optional `<uuid>`, `<memory>` and `<vcpu>`: name, UUID,
/// memory unit, memory, vCPUs and the rest.
#[verifier::opaque]
pub open spec fn read_head(s: Seq<char>) -> Option<
    ((Seq<char>, Option<Seq<char>>, Seq<char>, nat, nat), Seq<char>),
> {
    match read_text_element(s, "name"@) {
        Some(n) => match read_uuid(n.1) {
            Some(u) => match read_sizes(u.1) {
                Some(z) => Some(((n.0, u.0, z.0.0, z.0.1, z.0.2), z.1)),
                None => None,
            },
            None => None,
        },
        None => None,
    }
}

/// The content of a `<domain>` element of type `kind`: the domain it
/// describes and the rest.
#[verifier::opaque]
pub open spec fn read_domain_content(s: Seq<char>, kind: Seq<char>) -> Option<(DomainModel, Seq<char>)> {
    match read_head(s) {
        Some(h) => match read_os(h.1) {
            Some(os) => match read_features(os.1) {
                Some(f) => match read_empty_1(f.1, "cpu"@, "mode"@) {
                    Some(cpu) => match read_devices(cpu.1) {
                        Some(dev) => Some(
                            (
                                DomainModel {
                                    kind,
                                    name: h.0.0,
                                    uuid: h.0.1,
                                    memory_unit: h.0.2,
                                    memory: h.0.3,
                                    vcpu: h.0.4,
                                    os_arch: os.0.0,
                                    os_machine: os.0.1,
                                    os_type: os.0.2,
                                    boot_devs: os.0.3,
                                    acpi: f.0.0,
                                    apic: f.0.1,
                                    cpu_mode: cpu.0,
                                    disks: dev.0.0,
                                    interfaces: dev.0.1,
                                    consoles: dev.0.2,
                                    channels: dev.0.3,
                                },
                                dev.1,
                            ),
                        ),
                        None => None,
                    },
                    None => None,
                },
                None => None,
            },
            None => None,
        },
        None => None,
    }
}

/// A whole domain definition, with nothing after its end tag.
pub open spec fn read_domain(s: Seq<char>) -> Option<DomainModel> {
    match read_open_1(s, "domain"@, "type"@) {
        Some(o) => match read_domain_content(o.1, o.0) {
            Some(c) => if after(c.1, close_tag("domain"@)) == Some(Seq::<char>::empty()) {
                Some(c.0)
            } else {
                None
            },
            None => None,
        },
        None => None,
    }
}

proof fn lemma_element_start(name: Seq<char>, attrs: Seq<char>, content: Seq<char>)
    ensures
        element(name, attrs, content).len() >= name.len() + 1,
        element(name, attrs, content).take(name.len() + 1int) == "<"@ + name,
{
    reveal_strlit("<");
    let e = element(name, attrs, content);
    assert(e.take(name.len() + 1int) =~= "<"@ + name);
}

proof fn lemma_joined_first<T>(items: Seq<T>, f: spec_fn(T) -> Seq<char>, t: Seq<char>, start: Seq<char>)
    requires
        items.len() > 0,
        forall|x: T|
            #![trigger f(x)]
            start.len() <= f(x).len() && f(x).take(start.len() as int) == start,
    ensures
        start.len() <= joined(items, f).len(),
        start.len() <= (joined(items, f) + t).len(),
        forall|i: int| 0 <= i < start.len() ==> (joined(items, f) + t)[i] == start[i],
{
    lemma_joined_front(items, f);
    let x = items[0];
    let rest = joined(items.skip(1), f) + t;
    assert(joined(items, f) + t =~= f(x) + rest);
    assert forall|i: int| 0 <= i < start.len() implies (joined(items, f) + t)[i] == start[i] by {
        assert(f(x).take(start.len() as int)[i] == f(x)[i]);
    }
}

proof fn lemma_boots_joined(items: Seq<Boot>, f: spec_fn(Boot) -> Seq<char>)
    requires
        forall|x: Boot| #[trigger] f(x) == boot_xml(x),
    ensures
        boots_xml(items) == joined(items, f),
    decreases items.len(),
{
    if items.len() > 0 {
        lemma_boots_joined(items.drop_last(), f);
    }
}

proof fn lemma_disks_joined(items: Seq<Disk>, f: spec_fn(Disk) -> Seq<char>)
    requires
        forall|x: Disk| #[trigger] f(x) == disk_xml(x),
    ensures
        disks_xml(items) == joined(items, f),
    decreases items.len(),
{
    if items.len() > 0 {
        lemma_disks_joined(items.drop_last(), f);
    }
}

proof fn lemma_interfaces_joined(items: Seq<Interface>, f: spec_fn(Interface) -> Seq<char>)
    requires
        forall|x: Interface| #[trigger] f(x) == interface_xml(x),
    ensures
        interfaces_xml(items) == joined(items, f),
    decreases items.len(),
{
    if items.len() > 0 {
        lemma_interfaces_joined(items.drop_last(), f);
    }
}

proof fn lemma_consoles_joined(items: Seq<Console>, f: spec_fn(Console) -> Seq<char>)
    requires
        forall|x: Console| #[trigger] f(x) == console_xml(x),
    ensures
        consoles_xml(items) == joined(items, f),
    decreases items.len(),
{
    if items.len() > 0 {
        lemma_consoles_joined(items.drop_last(), f);
    }
}

proof fn lemma_channels_joined(items: Seq<Channel>, f: spec_fn(Channel) -> Seq<char>)
    requires
        forall|x: Channel| #[trigger] f(x) == channel_xml(x),
    ensures
        channels_xml(items) == joined(items, f),
    decreases items.len(),
{
    if items.len() > 0 {
        lemma_channels_joined(items.drop_last(), f);
    }
}

proof fn lemma_read_os_type(arch: Seq<char>, machine: Seq<char>, value: Seq<char>, r: Seq<char>)
    ensures
        read_os_type(
            element(
                "type"@,
                attribute("arch"@, arch) + attribute("machine"@, machine),
                escape(value, false),
            ) + r,
        ) == Some(((arch, machine, value), r)),
{
    reveal(read_os_type);
    reveal_strlit("<");
    reveal_strlit("<type");
    reveal_strlit("type");
    reveal_strlit("/>");
    reveal_strlit(">");
    let attrs = attribute("arch"@, arch) + attribute("machine"@, machine);
    let e = escape(value, false);
    lemma_escape_reads_back(value, false);
    let x = element("type"@, attrs, e) + r;
    if e.len() == 0 {
        assert(value =~= Seq::<char>::empty()) by {
            assert(unescape(e) =~= Seq::<char>::empty());
        }
        let tail = attribute("machine"@, machine) + ("/>"@ + r);
        assert(x =~= "<type"@ + (attribute("arch"@, arch) + tail));
        lemma_after("<type"@, attribute("arch"@, arch) + tail);
        lemma_read_attribute("arch"@, arch, tail);
        lemma_read_attribute("machine"@, machine, "/>"@ + r);
        lemma_after("/>"@, r);
    } else {
        let body = ">"@ + (e + (close_tag("type"@) + r));
        let tail = attribute("machine"@, machine) + body;
        assert(x =~= "<type"@ + (attribute("arch"@, arch) + tail));
        lemma_after("<type"@, attribute("arch"@, arch) + tail);
        lemma_read_attribute("arch"@, arch, tail);
        lemma_read_attribute("machine"@, machine, body);
        lemma_not_after(body, "/>"@, 0);
        lemma_after(">"@, e + (close_tag("type"@) + r));
        reveal_strlit("</");
        lemma_read_escaped(value, false, '<', close_tag("type"@) + r);
        lemma_after(close_tag("type"@), r);
    }
}

proof fn lemma_read_os(os: Os, r: Seq<char>)
    ensures
        read_os(os_xml(os) + r) == Some(
            (
                (
                    os.kind.arch@,
                    os.kind.machine@,
                    os.kind.value@,
                    os.boot@.map_values(|b: Boot| b.dev@),
                ),
                r,
            ),
        ),
{
    reveal(read_os);
    reveal_strlit("<");
    reveal_strlit(">");
    reveal_strlit("os");
    reveal_strlit("<os>");
    reveal_strlit("</");
    reveal_strlit("<boot");
    reveal_strlit("boot");
    let ty = element(
        "type"@,
        attribute("arch"@, os.kind.arch@) + attribute("machine"@, os.kind.machine@),
        escape(os.kind.value@, false),
    );
    let f = |b: Boot| boot_xml(b);
    lemma_boots_joined(os.boot@, f);
    let boots = boots_xml(os.boot@);
    let content = ty + boots;
    reveal_strlit("type");
    lemma_element_start(
        "type"@,
        attribute("arch"@, os.kind.arch@) + attribute("machine"@, os.kind.machine@),
        escape(os.kind.value@, false),
    );
    assert(content.len() > 0);
    lemma_read_open_0("os"@, content, r);
    assert("<"@ + "os"@ + ">"@ =~= "<os>"@);
    let close = close_tag("os"@) + r;
    assert(content + close =~= ty + (boots + close));
    lemma_read_os_type(os.kind.arch@, os.kind.machine@, os.kind.value@, boots + close);
    let item = |x: Seq<char>| read_empty_1(x, "boot"@, "dev"@);
    let model = |b: Boot| b.dev@;
    assert forall|x: Boot, rest: Seq<char>| #[trigger] item(f(x) + rest) == Some((model(x), rest)) by {
        lemma_read_empty_1("boot"@, "dev"@, x.dev@, rest);
    }
    assert forall|x: Boot|
        #![trigger f(x)]
        "<boot"@.len() <= f(x).len() && f(x).take("<boot"@.len() as int) == "<boot"@ by {
        lemma_element_start("boot"@, attribute("dev"@, x.dev@), Seq::empty());
        assert("<"@ + "boot"@ =~= "<boot"@);
    }
    lemma_not_after(close, "<boot"@, 1);
    lemma_read_list(os.boot@, f, model, "<boot"@, item, close);
    lemma_after(close_tag("os"@), r);
}

proof fn lemma_read_features(features: Features, r: Seq<char>)
    requires
        r.len() > 1,
        r[1] == 'c',
    ensures
        read_features(features_xml(features) + r) == Some(
            ((features.acpi is Some, features.apic is Some), r),
        ),
{
    reveal(read_features);
    reveal_strlit("<");
    reveal_strlit(">");
    reveal_strlit("/>");
    reveal_strlit("</");
    reveal_strlit("<features>");
    reveal_strlit("features");
    reveal_strlit("acpi");
    reveal_strlit("apic");
    if features.acpi is None && features.apic is None {
        assert(features_xml(features) + r =~= r);
        lemma_not_after(r, "<features>"@, 1);
    } else {
        let acpi = presence("acpi"@, features.acpi is Some);
        let apic = presence("apic"@, features.apic is Some);
        let content = acpi + apic;
        assert(content.len() > 0);
        lemma_read_open_0("features"@, content, r);
        assert("<"@ + "features"@ + ">"@ =~= "<features>"@);
        let close = close_tag("features"@) + r;
        assert(content + close =~= acpi + (apic + close));
        let acpi_tag = "<"@ + "acpi"@ + "/>"@;
        let apic_tag = "<"@ + "apic"@ + "/>"@;
        if features.acpi is Some {
            assert(acpi =~= acpi_tag);
            lemma_after(acpi_tag, apic + close);
        } else {
            assert(acpi + (apic + close) =~= apic + close);
            if features.apic is Some {
                assert(apic =~= apic_tag);
                assert((apic + close)[2] == 'p');
            }
            lemma_not_after(apic + close, acpi_tag, 2);
        }
        if features.apic is Some {
            assert(apic =~= apic_tag);
            lemma_after(apic_tag, close);
        } else {
            assert(apic + close =~= close);
            lemma_not_after(close, apic_tag, 1);
        }
        lemma_after(close_tag("features"@), r);
    }
}

/// The second character of a list of items that all start with `start`, or
/// else of the text after it.
proof fn lemma_list_second<T>(items: Seq<T>, f: spec_fn(T) -> Seq<char>, t: Seq<char>, start: Seq<char>)
    requires
        forall|x: T|
            #![trigger f(x)]
            start.len() <= f(x).len() && f(x).take(start.len() as int) == start,
        start.len() > 1,
        t.len() > 1,
    ensures
        (joined(items, f) + t).len() > 1,
        (joined(items, f) + t)[1] == if items.len() > 0 {
            start[1]
        } else {
            t[1]
        },
{
    if items.len() > 0 {
        lemma_joined_first(items, f, t, start);
    } else {
        assert(joined(items, f) + t =~= t);
    }
}


proof fn lemma_disk_start(x: Disk)
    ensures
        "<disk"@.len() <= disk_xml(x).len() && disk_xml(x).take("<disk"@.len() as int) == "<disk"@,
{
    reveal_strlit("<");
    reveal_strlit("disk");
    reveal_strlit("<disk");
    lemma_element_start(
        "disk"@,
        attribute("type"@, x.kind@) + attribute("device"@, x.device@),
        element(
            "driver"@,
            attribute("name"@, x.driver.name@) + attribute("type"@, x.driver.kind@),
            Seq::empty(),
        ) + element("source"@, attribute("file"@, x.source.file@), Seq::empty()) + element(
            "target"@,
            attribute("dev"@, x.target.dev@) + attribute("bus"@, x.target.bus@),
            Seq::empty(),
        ) + presence("readonly"@, x.readonly is Some),
    );
    assert("<"@ + "disk"@ =~= "<disk"@);
}

proof fn lemma_interface_start(x: Interface)
    ensures
        "<interface"@.len() <= interface_xml(x).len() && interface_xml(x).take(
            "<interface"@.len() as int,
        ) == "<interface"@,
{
    reveal_strlit("<");
    reveal_strlit("interface");
    reveal_strlit("<interface");
    lemma_element_start(
        "interface"@,
        attribute("type"@, x.kind@),
        mac_xml(x.mac) + element("source"@, attribute("network"@, x.source.network@), Seq::empty())
            + element("model"@, attribute("type"@, x.model.kind@), Seq::empty()),
    );
    assert("<"@ + "interface"@ =~= "<interface"@);
}

proof fn lemma_console_start(x: Console)
    ensures
        "<console"@.len() <= console_xml(x).len() && console_xml(x).take("<console"@.len() as int)
            == "<console"@,
{
    reveal_strlit("<");
    reveal_strlit("console");
    reveal_strlit("<console");
    lemma_element_start(
        "console"@,
        attribute("type"@, x.kind@),
        element(
            "target"@,
            attribute("type"@, x.target.kind@) + attribute("port"@, nat_text(x.target.port as nat)),
            Seq::empty(),
        ),
    );
    assert("<"@ + "console"@ =~= "<console"@);
}

proof fn lemma_channel_start(x: Channel)
    ensures
        "<channel"@.len() <= channel_xml(x).len() && channel_xml(x).take("<channel"@.len() as int)
            == "<channel"@,
{
    reveal_strlit("<");
    reveal_strlit("channel");
    reveal_strlit("<channel");
    lemma_element_start(
        "channel"@,
        attribute("type"@, x.kind@),
        element(
            "target"@,
            attribute("type"@, x.target.kind@) + attribute("name"@, x.target.name@),
            Seq::empty(),
        ),
    );
    assert("<"@ + "channel"@ =~= "<channel"@);
}

#[verifier::rlimit(40)]
proof fn lemma_read_disks(items: Seq<Disk>, t: Seq<char>)
    requires
        t.len() > 2,
        after(t, "<disk"@) is None,
    ensures
        read_list(disks_xml(items) + t, "<disk"@, |x: Seq<char>| read_disk(x)) == Some(
            (items.map_values(|x: Disk| disk_model(x)), t),
        ),
        (disks_xml(items) + t).len() > 2,
        items.len() == 0 ==> disks_xml(items) + t == t,
        items.len() > 0 ==> disks_xml(items).len() > 0,
        items.len() > 0 ==> (disks_xml(items) + t)[1] == 'd' && (disks_xml(items) + t)[2]
            == 'i',
{
    reveal_strlit("<");
    reveal_strlit("disk");
    reveal_strlit("<disk");
    let f = |x: Disk| disk_xml(x);
    let model = |x: Disk| disk_model(x);
    let item = |x: Seq<char>| read_disk(x);
    lemma_disks_joined(items, f);
    assert forall|x: Disk|
        #![trigger f(x)]
        "<disk"@.len() <= f(x).len() && f(x).take("<disk"@.len() as int) == "<disk"@ by {
        lemma_disk_start(x);
    }
    assert forall|x: Disk, rest: Seq<char>| #[trigger] item(f(x) + rest) == Some((model(x), rest)) by {
        lemma_read_disk(x, rest);
    }
    lemma_read_list(items, f, model, "<disk"@, item, t);
    if items.len() > 0 {
        lemma_joined_first(items, f, t, "<disk"@);
        assert((joined(items, f) + t)[1] == "<disk"@[1]);
        assert((joined(items, f) + t)[2] == "<disk"@[2]);
    } else {
        assert(joined(items, f) + t =~= t);
    }
}

#[verifier::rlimit(40)]
proof fn lemma_read_interfaces(items: Seq<Interface>, t: Seq<char>)
    requires
        t.len() > 2,
        after(t, "<interface"@) is None,
    ensures
        read_list(interfaces_xml(items) + t, "<interface"@, |x: Seq<char>| read_interface(x)) == Some(
            (items.map_values(|x: Interface| interface_model(x)), t),
        ),
        (interfaces_xml(items) + t).len() > 2,
        items.len() == 0 ==> interfaces_xml(items) + t == t,
        items.len() > 0 ==> interfaces_xml(items).len() > 0,
        items.len() > 0 ==> (interfaces_xml(items) + t)[1] == 'i' && (interfaces_xml(items) + t)[2]
            == 'n',
{
    reveal_strlit("<");
    reveal_strlit("interface");
    reveal_strlit("<interface");
    let f = |x: Interface| interface_xml(x);
    let model = |x: Interface| interface_model(x);
    let item = |x: Seq<char>| read_interface(x);
    lemma_interfaces_joined(items, f);
    assert forall|x: Interface|
        #![trigger f(x)]
        "<interface"@.len() <= f(x).len() && f(x).take("<interface"@.len() as int) == "<interface"@ by {
        lemma_interface_start(x);
    }
    assert forall|x: Interface, rest: Seq<char>| #[trigger] item(f(x) + rest) == Some((model(x), rest)) by {
        lemma_read_interface(x, rest);
    }
    lemma_read_list(items, f, model, "<interface"@, item, t);
    if items.len() > 0 {
        lemma_joined_first(items, f, t, "<interface"@);
        assert((joined(items, f) + t)[1] == "<interface"@[1]);
        assert((joined(items, f) + t)[2] == "<interface"@[2]);
    } else {
        assert(joined(items, f) + t =~= t);
    }
}

#[verifier::rlimit(40)]
proof fn lemma_read_consoles(items: Seq<Console>, t: Seq<char>)
    requires
        t.len() > 2,
        after(t, "<console"@) is None,
    ensures
        read_list(consoles_xml(items) + t, "<console"@, |x: Seq<char>| read_console(x)) == Some(
            (items.map_values(|x: Console| console_model(x)), t),
        ),
        (consoles_xml(items) + t).len() > 2,
        items.len() == 0 ==> consoles_xml(items) + t == t,
        items.len() > 0 ==> consoles_xml(items).len() > 0,
        items.len() > 0 ==> (consoles_xml(items) + t)[1] == 'c' && (consoles_xml(items) + t)[2]
            == 'o',
{
    reveal_strlit("<");
    reveal_strlit("console");
    reveal_strlit("<console");
    let f = |x: Console| console_xml(x);
    let model = |x: Console| console_model(x);
    let item = |x: Seq<char>| read_console(x);
    lemma_consoles_joined(items, f);
    assert forall|x: Console|
        #![trigger f(x)]
        "<console"@.len() <= f(x).len() && f(x).take("<console"@.len() as int) == "<console"@ by {
        lemma_console_start(x);
    }
    assert forall|x: Console, rest: Seq<char>| #[trigger] item(f(x) + rest) == Some((model(x), rest)) by {
        lemma_read_console(x, rest);
    }
    lemma_read_list(items, f, model, "<console"@, item, t);
    if items.len() > 0 {
        lemma_joined_first(items, f, t, "<console"@);
        assert((joined(items, f) + t)[1] == "<console"@[1]);
        assert((joined(items, f) + t)[2] == "<console"@[2]);
    } else {
        assert(joined(items, f) + t =~= t);
    }
}

#[verifier::rlimit(40)]
proof fn lemma_read_channels(items: Seq<Channel>, t: Seq<char>)
    requires
        t.len() > 2,
        after(t, "<channel"@) is None,
    ensures
        read_list(channels_xml(items) + t, "<channel"@, |x: Seq<char>| read_channel(x)) == Some(
            (items.map_values(|x: Channel| channel_model(x)), t),
        ),
        (channels_xml(items) + t).len() > 2,
        items.len() == 0 ==> channels_xml(items) + t == t,
        items.len() > 0 ==> channels_xml(items).len() > 0,
        items.len() > 0 ==> (channels_xml(items) + t)[1] == 'c' && (channels_xml(items) + t)[2]
            == 'h',
{
    reveal_strlit("<");
    reveal_strlit("channel");
    reveal_strlit("<channel");
    let f = |x: Channel| channel_xml(x);
    let model = |x: Channel| channel_model(x);
    let item = |x: Seq<char>| read_channel(x);
    lemma_channels_joined(items, f);
    assert forall|x: Channel|
        #![trigger f(x)]
        "<channel"@.len() <= f(x).len() && f(x).take("<channel"@.len() as int) == "<channel"@ by {
        lemma_channel_start(x);
    }
    assert forall|x: Channel, rest: Seq<char>| #[trigger] item(f(x) + rest) == Some((model(x), rest)) by {
        lemma_read_channel(x, rest);
    }
    lemma_read_list(items, f, model, "<channel"@, item, t);
    if items.len() > 0 {
        lemma_joined_first(items, f, t, "<channel"@);
        assert((joined(items, f) + t)[1] == "<channel"@[1]);
        assert((joined(items, f) + t)[2] == "<channel"@[2]);
    } else {
        assert(joined(items, f) + t =~= t);
    }
}

/// The device lists and the text from the `<disk>` list on, as the devices'
/// content is followed by `</devices>` and `r`.
#[verifier::rlimit(100)]
proof fn lemma_read_device_lists(devices: Devices, r: Seq<char>)
    ensures
        (disks_xml(devices.disks@) + interfaces_xml(devices.interfaces@) + consoles_xml(
            devices.consoles@,
        ) + channels_xml(devices.channels@)).len() == 0 <==> (devices.disks@.len() == 0
            && devices.interfaces@.len() == 0 && devices.consoles@.len() == 0
            && devices.channels@.len() == 0),
        read_device_lists(
            disks_xml(devices.disks@) + interfaces_xml(devices.interfaces@) + consoles_xml(
                devices.consoles@,
            ) + channels_xml(devices.channels@) + (close_tag("devices"@) + r),
        ) == Some(
            (
                (
                    devices.disks@.map_values(|x: Disk| disk_model(x)),
                    devices.interfaces@.map_values(|x: Interface| interface_model(x)),
                    devices.consoles@.map_values(|x: Console| console_model(x)),
                    devices.channels@.map_values(|x: Channel| channel_model(x)),
                ),
                close_tag("devices"@) + r,
            ),
        ),
{
    reveal(read_device_lists);
    reveal_strlit("<");
    reveal_strlit("</");
    reveal_strlit(">");
    reveal_strlit("devices");
    reveal_strlit("<disk");
    reveal_strlit("<interface");
    reveal_strlit("<console");
    reveal_strlit("<channel");
    let ds = disks_xml(devices.disks@);
    let is = interfaces_xml(devices.interfaces@);
    let cs = consoles_xml(devices.consoles@);
    let hs = channels_xml(devices.channels@);
    let content = ds + is + cs + hs;
    let close = close_tag("devices"@) + r;
    let after_c = hs + close;
    let after_i = cs + after_c;
    let after_d = is + after_i;
    assert(close[1] == '/' && close[2] == 'd');
    lemma_not_after(close, "<channel"@, 1);
    lemma_read_channels(devices.channels@, close);
    if devices.channels@.len() > 0 {
        lemma_not_after(after_c, "<console"@, 2);
    } else {
        lemma_not_after(after_c, "<console"@, 1);
    }
    lemma_read_consoles(devices.consoles@, after_c);
    lemma_not_after(after_i, "<interface"@, 1);
    lemma_read_interfaces(devices.interfaces@, after_i);
    lemma_not_after(after_d, "<disk"@, 1);
    lemma_read_disks(devices.disks@, after_d);
    assert(content + close =~= ds + after_d);
}

proof fn lemma_read_no_devices(devices: Devices, r: Seq<char>)
    requires
        devices.disks@.len() == 0,
        devices.interfaces@.len() == 0,
        devices.consoles@.len() == 0,
        devices.channels@.len() == 0,
    ensures
        read_devices(devices_xml(devices) + r) == Some(
            (
                (
                    devices.disks@.map_values(|x: Disk| disk_model(x)),
                    devices.interfaces@.map_values(|x: Interface| interface_model(x)),
                    devices.consoles@.map_values(|x: Console| console_model(x)),
                    devices.channels@.map_values(|x: Channel| channel_model(x)),
                ),
                r,
            ),
        ),
{
    reveal(read_devices);
    reveal_strlit("<");
    reveal_strlit("/>");
    reveal_strlit("devices");
    reveal_strlit("<devices/>");
    assert(disks_xml(devices.disks@).len() == 0);
    assert(interfaces_xml(devices.interfaces@).len() == 0);
    assert(consoles_xml(devices.consoles@).len() == 0);
    assert(channels_xml(devices.channels@).len() == 0);
    assert(devices_xml(devices) =~= "<devices/>"@);
    lemma_after("<devices/>"@, r);
    assert(devices.disks@.map_values(|x: Disk| disk_model(x)) =~= Seq::<DiskModel>::empty());
    assert(devices.interfaces@.map_values(|x: Interface| interface_model(x))
        =~= Seq::<InterfaceModel>::empty());
    assert(devices.consoles@.map_values(|x: Console| console_model(x))
        =~= Seq::<ConsoleModel>::empty());
    assert(devices.channels@.map_values(|x: Channel| channel_model(x))
        =~= Seq::<ChannelModel>::empty());
}

#[verifier::rlimit(60)]
proof fn lemma_read_devices(devices: Devices, r: Seq<char>)
    ensures
        read_devices(devices_xml(devices) + r) == Some(
            (
                (
                    devices.disks@.map_values(|x: Disk| disk_model(x)),
                    devices.interfaces@.map_values(|x: Interface| interface_model(x)),
                    devices.consoles@.map_values(|x: Console| console_model(x)),
                    devices.channels@.map_values(|x: Channel| channel_model(x)),
                ),
                r,
            ),
        ),
{
    let content = disks_xml(devices.disks@) + interfaces_xml(devices.interfaces@)
        + consoles_xml(devices.consoles@) + channels_xml(devices.channels@);
    lemma_read_device_lists(devices, r);
    if content.len() == 0 {
        lemma_read_no_devices(devices, r);
    } else {
        reveal(read_devices);
        reveal_strlit("<");
        reveal_strlit(">");
        reveal_strlit("/>");
        reveal_strlit("devices");
        reveal_strlit("<devices/>");
        reveal_strlit("<devices>");
        lemma_read_open_0("devices"@, content, r);
        assert("<"@ + "devices"@ + ">"@ =~= "<devices>"@);
        lemma_not_after(devices_xml(devices) + r, "<devices/>"@, 8);
        lemma_after(close_tag("devices"@), r);
    }
}

proof fn lemma_read_uuid(uuid: Option<String>, r: Seq<char>)
    requires
        r.len() > 1,
        r[1] == 'm',
    ensures
        read_uuid(uuid_xml(uuid) + r) == Some(
            (
                match uuid {
                    Some(u) => Some(u@),
                    None => None,
                },
                r,
            ),
        ),
{
    reveal(read_uuid);
    reveal_strlit("<");
    reveal_strlit("uuid");
    reveal_strlit("<uuid");
    let u = uuid_xml(uuid);
    match uuid {
        Some(id) => {
            lemma_element_start("uuid"@, Seq::empty(), escape(id@, false));
            assert((u + r).take(5) =~= u.take(5));
            assert("<"@ + "uuid"@ =~= "<uuid"@);
            lemma_read_text_element("uuid"@, id@, r);
        },
        None => {
            assert(u + r =~= r);
            lemma_not_after(r, "<uuid"@, 1);
        },
    }
}

proof fn lemma_read_sizes(unit: Seq<char>, mem: nat, vcpu: nat, r: Seq<char>)
    ensures
        read_sizes(
            element("memory"@, attribute("unit"@, unit), nat_text(mem)) + element(
                "vcpu"@,
                Seq::empty(),
                nat_text(vcpu),
            ) + r,
        ) == Some(((unit, mem, vcpu), r)),
{
    reveal(read_sizes);
    reveal_strlit("<");
    reveal_strlit(">");
    reveal_strlit("</");
    reveal_strlit("memory");
    reveal_strlit("<memory");
    reveal_strlit("vcpu");
    reveal_strlit("<vcpu");
    let mt = nat_text(mem);
    let vt = nat_text(vcpu);
    lemma_nat_text(mem);
    lemma_nat_text(vcpu);
    let m = element("memory"@, attribute("unit"@, unit), mt);
    let v = element("vcpu"@, Seq::empty(), vt);
    let unit_rest = ">"@ + mt + ("</"@ + "memory"@ + ">"@) + (v + r);
    assert(m + v + r =~= "<memory"@ + (attribute("unit"@, unit) + unit_rest));
    lemma_after("<memory"@, attribute("unit"@, unit) + unit_rest);
    lemma_read_attribute("unit"@, unit, unit_rest);
    lemma_read_number_content("memory"@, mem, v + r);
    let v_rest = ">"@ + vt + ("</"@ + "vcpu"@ + ">"@) + r;
    assert(v + r =~= "<vcpu"@ + v_rest);
    lemma_after("<vcpu"@, v_rest);
    lemma_read_number_content("vcpu"@, vcpu, r);
}

proof fn lemma_read_head(d: Domain, r: Seq<char>)
    ensures
        read_head(
            text_element("name"@, d.name@) + uuid_xml(d.uuid) + element(
                "memory"@,
                attribute("unit"@, d.memory.unit@),
                nat_text(d.memory.value as nat),
            ) + element("vcpu"@, Seq::empty(), nat_text(d.vcpu as nat)) + r,
        ) == Some(
            (
                (
                    d.name@,
                    match d.uuid {
                        Some(u) => Some(u@),
                        None => None,
                    },
                    d.memory.unit@,
                    d.memory.value as nat,
                    d.vcpu as nat,
                ),
                r,
            ),
        ),
{
    reveal(read_head);
    reveal_strlit("memory");
    let name_x = text_element("name"@, d.name@);
    let u = uuid_xml(d.uuid);
    let m = element(
        "memory"@,
        attribute("unit"@, d.memory.unit@),
        nat_text(d.memory.value as nat),
    );
    let v = element("vcpu"@, Seq::empty(), nat_text(d.vcpu as nat));
    let sizes = m + v + r;
    assert(name_x + u + m + v + r =~= name_x + (u + sizes));
    lemma_read_text_element("name"@, d.name@, u + sizes);
    lemma_element_start("memory"@, attribute("unit"@, d.memory.unit@), nat_text(d.memory.value as nat));
    assert(sizes[1] == 'm') by {
        reveal_strlit("<");
        assert(m.take(7)[1] == m[1]);
        assert(sizes[1] == m[1]);
    }
    lemma_read_uuid(d.uuid, sizes);
    lemma_read_sizes(d.memory.unit@, d.memory.value as nat, d.vcpu as nat, r);
}

/// Reading the content of a domain element part by part.
proof fn lemma_read_domain_parts(
    kind: Seq<char>,
    head: Seq<char>,
    os: Seq<char>,
    features: Seq<char>,
    cpu: Seq<char>,
    devices: Seq<char>,
    r: Seq<char>,
    m: DomainModel,
)
    requires
        read_head(head + (os + (features + (cpu + (devices + r))))) == Some(
            ((m.name, m.uuid, m.memory_unit, m.memory, m.vcpu), os + (features + (cpu + (devices
                + r)))),
        ),
        read_os(os + (features + (cpu + (devices + r)))) == Some(
            ((m.os_arch, m.os_machine, m.os_type, m.boot_devs), features + (cpu + (devices + r))),
        ),
        read_features(features + (cpu + (devices + r))) == Some(
            ((m.acpi, m.apic), cpu + (devices + r)),
        ),
        read_empty_1(cpu + (devices + r), "cpu"@, "mode"@) == Some((m.cpu_mode, devices + r)),
        read_devices(devices + r) == Some(((m.disks, m.interfaces, m.consoles, m.channels), r)),
        m.kind == kind,
    ensures
        read_domain_content(head + os + features + cpu + devices + r, kind) == Some((m, r)),
{
    reveal(read_domain_content);
    assert(head + os + features + cpu + devices + r =~= head + (os + (features + (cpu + (devices
        + r)))));
}

proof fn lemma_read_domain_content(d: Domain, r: Seq<char>)
    ensures
        read_domain_content(
            text_element("name"@, d.name@) + uuid_xml(d.uuid) + element(
                "memory"@,
                attribute("unit"@, d.memory.unit@),
                nat_text(d.memory.value as nat),
            ) + element("vcpu"@, Seq::empty(), nat_text(d.vcpu as nat)) + os_xml(d.os)
                + features_xml(d.features) + element(
                "cpu"@,
                attribute("mode"@, d.cpu.mode@),
                Seq::empty(),
            ) + devices_xml(d.devices) + r,
            d.kind@,
        ) == Some((domain_model(d), r)),
{
    let head = text_element("name"@, d.name@) + uuid_xml(d.uuid) + element(
        "memory"@,
        attribute("unit"@, d.memory.unit@),
        nat_text(d.memory.value as nat),
    ) + element("vcpu"@, Seq::empty(), nat_text(d.vcpu as nat));
    let os_x = os_xml(d.os);
    let features_x = features_xml(d.features);
    let cpu_x = element("cpu"@, attribute("mode"@, d.cpu.mode@), Seq::empty());
    let devices_x = devices_xml(d.devices);
    let r_devices = devices_x + r;
    let r_cpu = cpu_x + r_devices;
    let r_features = features_x + r_cpu;
    let r_os = os_x + r_features;
    lemma_read_head(d, r_os);
    lemma_read_os(d.os, r_features);
    lemma_element_start("cpu"@, attribute("mode"@, d.cpu.mode@), Seq::empty());
    assert(r_cpu[1] == 'c') by {
        reveal_strlit("<");
        reveal_strlit("cpu");
        assert(cpu_x.take(4)[1] == cpu_x[1]);
        assert(r_cpu[1] == cpu_x[1]);
    }
    lemma_read_features(d.features, r_cpu);
    lemma_read_empty_1("cpu"@, "mode"@, d.cpu.mode@, r_devices);
    lemma_read_devices(d.devices, r);
    lemma_read_domain_parts(d.kind@, head, os_x, features_x, cpu_x, devices_x, r, domain_model(d));
}

/// The XML text written for a domain reads back as that domain: every
/// attribute, text and optional part, and every device list in order, comes
/// back as written, and nothing follows the domain's end tag.
pub proof fn lemma_domain_xml_reads_back(d: Domain)
    ensures
        read_domain(domain_xml(d)) == Some(domain_model(d)),
{
    let content = text_element("name"@, d.name@) + uuid_xml(d.uuid) + element(
        "memory"@,
        attribute("unit"@, d.memory.unit@),
        nat_text(d.memory.value as nat),
    ) + element("vcpu"@, Seq::empty(), nat_text(d.vcpu as nat)) + os_xml(d.os) + features_xml(
        d.features,
    ) + element("cpu"@, attribute("mode"@, d.cpu.mode@), Seq::empty()) + devices_xml(d.devices);
    let close = close_tag("domain"@);
    lemma_element_start("cpu"@, attribute("mode"@, d.cpu.mode@), Seq::empty());
    assert(content.len() > 0);
    lemma_read_open_1("domain"@, "type"@, d.kind@, content, Seq::empty());
    assert(domain_xml(d) + Seq::<char>::empty() =~= domain_xml(d));
    assert(close + Seq::<char>::empty() =~= close);
    lemma_read_domain_content(d, close);
    lemma_after(close, Seq::<char>::empty());
}

} // verus!
