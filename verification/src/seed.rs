//! Cloud-init seed data for new instances.
use vstd::prelude::*;

use crate::model::VmConfig;
use crate::net::{ipv4_text, Ipv4Address};
use crate::paths::{join, path_join};
use crate::text::{occurs_at, replace_all, replace_all_exec};

verus! {

/// The cloud-config that names the guest and creates its user and the
/// system administrator, each with their SSH key.
pub const USER_DATA_SEED: &'static str = "#cloud-config
hostname: {vm}
users:
  - name: {user_name}
    shell: /bin/bash
    sudo: ALL=(ALL) NOPASSWD:ALL
    ssh_authorized_keys:
      - {user_key}
  - name: sysadmin
    shell: /bin/bash
    sudo: ALL=(ALL) NOPASSWD:ALL
    ssh_authorized_keys:
      - {admin_key}
";

/// The network configuration of the guest's interface, matched by MAC
/// address, with its default route through the configured gateway.
pub const NETWORK_CONFIG_SEED: &'static str = "version: 2
ethernets:
  primary:
    match:
      macaddress: \"{mac_triple}\"
    dhcp4: {dhcp}
    addresses:
      - {ip}
    routes:
      - to: default
        via: {gateway}
";

/// The instance metadata: its ID and host name.
pub const META_DATA_SEED: &'static str = "instance-id: {vm}
local-hostname: {vm}
";

/// `{name}`, where a template takes the value of `name`.
pub open spec fn placeholder(name: Seq<char>) -> Seq<char> {
    "{"@ + name + "}"@
}

/// `template` with each binding's placeholder replaced by its value, one
/// binding after the other.
pub open spec fn interpolate(template: Seq<char>, bindings: Seq<(Seq<char>, Seq<char>)>) -> Seq<
    char,
>
    decreases bindings.len(),
{
    if bindings.len() == 0 {
        template
    } else {
        replace_all(
            interpolate(template, bindings.drop_last()),
            placeholder(bindings.last().0),
            bindings.last().1,
        )
    }
}

/// The characters of each name and value.
pub open spec fn binding_views(bindings: Seq<(String, String)>) -> Seq<(Seq<char>, Seq<char>)> {
    bindings.map_values(|b: (String, String)| (b.0@, b.1@))
}

/// `template` with each binding's `{name}` replaced by its value, one binding
/// after the other.
pub fn interpolate_exec(template: &str, bindings: &Vec<(String, String)>) -> (r: String)
    ensures
        r@ == interpolate(template@, binding_views(bindings@)),
{
    proof {
        reveal_strlit("{");
        reveal_strlit("}");
    }
    let mut result = String::from_str(template);
    let mut k: usize = 0;
    while k < bindings.len()
        invariant
            k <= bindings.len(),
            result@ == interpolate(template@, binding_views(bindings@).take(k as int)),
        decreases bindings.len() - k,
    {
        let mut pattern = String::from_str("{");
        pattern.append(bindings[k].0.as_str());
        pattern.append("}");
        let next = replace_all_exec(result.as_str(), pattern.as_str(), bindings[k].1.as_str());
        proof {
            let views = binding_views(bindings@);
            let t = views.take(k + 1);
            assert(t.drop_last() =~= views.take(k as int));
            assert(t.last() == (bindings@[k as int].0@, bindings@[k as int].1@));
        }
        result = next;
        k = k + 1;
    }
    assert(binding_views(bindings@).take(bindings@.len() as int) =~= binding_views(bindings@));
    result
}

/// A template without any `{` comes back unchanged from interpolation.
pub proof fn lemma_interpolate_plain_template(
    template: Seq<char>,
    bindings: Seq<(Seq<char>, Seq<char>)>,
)
    requires
        !template.contains('{'),
    ensures
        interpolate(template, bindings) == template,
    decreases bindings.len(),
{
    if bindings.len() > 0 {
        lemma_interpolate_plain_template(template, bindings.drop_last());
        reveal_strlit("{");
        let pat = placeholder(bindings.last().0);
        assert(pat[0] == '{');
        lemma_replace_absent(template, pat, bindings.last().1);
    }
}

/// Nothing is replaced in a text that lacks the pattern's first character.
pub proof fn lemma_replace_absent(s: Seq<char>, pat: Seq<char>, val: Seq<char>)
    requires
        pat.len() > 0,
        !s.contains(pat[0]),
    ensures
        replace_all(s, pat, val) == s,
    decreases s.len(),
{
    if s.len() > 0 {
        assert(s[0] != pat[0]);
        if crate::text::occurs_at(s, pat, 0) {
            assert(s.subrange(0, pat.len() as int)[0] == s[0]);
        }
        let t = s.skip(1);
        assert(!t.contains(pat[0])) by {
            if t.contains(pat[0]) {
                let j = choose|j: int| 0 <= j < t.len() && t[j] == pat[0];
                assert(s[j + 1] == pat[0]);
            }
        }
        lemma_replace_absent(t, pat, val);
        assert(seq![s[0]] + t =~= s);
    }
}

fn binding(name: &str, value: &str) -> (r: (String, String))
    ensures
        r.0@ == name@,
        r.1@ == value@,
{
    (String::from_str(name), String::from_str(value))
}

/// The bindings of the user-data template.
pub open spec fn user_bindings(config: &VmConfig, admin_key: Seq<char>) -> Seq<(Seq<char>, Seq<char>)> {
    seq![
        ("vm"@, config.instance.hostname@),
        ("user_name"@, config.user.name@),
        ("user_key"@, config.user.key@),
        ("admin_key"@, admin_key),
    ]
}

/// The cloud-config user data of the instance: its host name, its user with
/// the user's key, and the system administrator with `admin_key`.
pub fn user_seed(config: &VmConfig, admin_key: &str) -> (r: String)
    ensures
        r@ == interpolate(USER_DATA_SEED@, user_bindings(config, admin_key@)),
        !config.instance.hostname@.contains('{') && !config.user.name@.contains('{')
            && !config.user.key@.contains('{') && !admin_key@.contains('{') ==> r@ == "#cloud-config\nhostname: "@
            + config.instance.hostname@ + "\nusers:\n  - name: "@ + config.user.name@
            + "\n    shell: /bin/bash\n    sudo: ALL=(ALL) NOPASSWD:ALL\n    ssh_authorized_keys:\n      - "@
            + config.user.key@
            + "\n  - name: sysadmin\n    shell: /bin/bash\n    sudo: ALL=(ALL) NOPASSWD:ALL\n    ssh_authorized_keys:\n      - "@
            + admin_key@ + "\n"@,
{
    let mut bindings: Vec<(String, String)> = Vec::new();
    bindings.push(binding("vm", config.instance.hostname.as_str()));
    bindings.push(binding("user_name", config.user.name.as_str()));
    bindings.push(binding("user_key", config.user.key.as_str()));
    bindings.push(binding("admin_key", admin_key));
    assert(binding_views(bindings@) =~= user_bindings(config, admin_key@));
    proof {
        if !config.instance.hostname@.contains('{') && !config.user.name@.contains('{')
            && !config.user.key@.contains('{') && !admin_key@.contains('{') {
            lemma_user_seed_text(config, admin_key@);
        }
    }
    interpolate_exec(USER_DATA_SEED, &bindings)
}

/// `true` or `false`, as `bool` displays.
pub open spec fn bool_text(b: bool) -> Seq<char> {
    if b {
        "true"@
    } else {
        "false"@
    }
}

/// The bindings of the network-config template.
pub open spec fn network_bindings(config: &VmConfig, gateway: Ipv4Address) -> Seq<
    (Seq<char>, Seq<char>),
> {
    seq![
        ("dhcp"@, bool_text(config.networking.dhcp)),
        ("mac_triple"@, config.networking.mac@),
        ("ip"@, config.networking.ip@),
        ("gateway"@, ipv4_text(gateway)),
    ]
}

/// The network configuration of the instance: DHCP or not, its MAC address,
/// its IP and the gateway of its default route.
pub fn network_config_seed(config: &VmConfig, gateway: Ipv4Address) -> (r: String)
    ensures
        r@ == interpolate(NETWORK_CONFIG_SEED@, network_bindings(config, gateway)),
        !config.networking.mac@.contains('{') && !config.networking.ip@.contains('{') ==> r@ == "version: 2\nethernets:\n  primary:\n    match:\n      macaddress: \""@
            + config.networking.mac@ + "\"\n    dhcp4: "@ + (if config.networking.dhcp {
            "true"@
        } else {
            "false"@
        }) + "\n    addresses:\n      - "@ + config.networking.ip@ + "\n    routes:\n      - to: default\n        via: "@ + ipv4_text(gateway) + "\n"@,
{
    let mut bindings: Vec<(String, String)> = Vec::new();
    let dhcp = if config.networking.dhcp {
        "true"
    } else {
        "false"
    };
    bindings.push(binding("dhcp", dhcp));
    bindings.push(binding("mac_triple", config.networking.mac.as_str()));
    bindings.push(binding("ip", config.networking.ip.as_str()));
    let gateway_text = gateway.to_text();
    bindings.push(binding("gateway", gateway_text.as_str()));
    assert(binding_views(bindings@) =~= network_bindings(config, gateway));
    proof {
        if !config.networking.mac@.contains('{') && !config.networking.ip@.contains('{') {
            lemma_network_seed_text(config, gateway);
        }
    }
    interpolate_exec(NETWORK_CONFIG_SEED, &bindings)
}

/// The metadata of the instance, named after its host name.
pub fn metadata_seed(config: &VmConfig) -> (r: String)
    ensures
        r@ == interpolate(META_DATA_SEED@, seq![("vm"@, config.instance.hostname@)]),
        !config.instance.hostname@.contains('{') ==> r@ == "instance-id: "@ + config.instance.hostname@ + "\nlocal-hostname: "@ + config.instance.hostname@
            + "\n"@,
{
    let mut bindings: Vec<(String, String)> = Vec::new();
    bindings.push(binding("vm", config.instance.hostname.as_str()));
    assert(binding_views(bindings@) =~= seq![("vm"@, config.instance.hostname@)]);
    proof {
        if !config.instance.hostname@.contains('{') {
            lemma_metadata_seed_text(config.instance.hostname@);
        }
    }
    interpolate_exec(META_DATA_SEED, &bindings)
}

/// The request-local directory that holds the three cloud-init inputs.
pub struct SeedFiles {
    pub directory: String,
}

impl SeedFiles {
    /// Seed files kept in `directory`.
    pub fn at(directory: &str) -> (r: Self)
        ensures
            r.directory@ == directory@,
    {
        SeedFiles { directory: String::from_str(directory) }
    }

    /// `user-data` in the seed directory.
    pub fn user_data(&self) -> (r: String)
        ensures
            r@ == path_join(self.directory@, "user-data"@),
    {
        join(self.directory.as_str(), "user-data")
    }

    /// `network-config` in the seed directory.
    pub fn network_config(&self) -> (r: String)
        ensures
            r@ == path_join(self.directory@, "network-config"@),
    {
        join(self.directory.as_str(), "network-config")
    }

    /// `meta-data` in the seed directory.
    pub fn meta_data(&self) -> (r: String)
        ensures
            r@ == path_join(self.directory@, "meta-data"@),
    {
        join(self.directory.as_str(), "meta-data")
    }
}

/// Where `pat` does not occur at any position of `p`, replacing in `p + z`
/// leaves `p` as it is.
proof fn lemma_replace_after(p: Seq<char>, z: Seq<char>, pat: Seq<char>, v: Seq<char>)
    requires
        pat.len() > 0,
        forall|i: int| 0 <= i < p.len() ==> !occurs_at(#[trigger] (p + z), pat, i),
    ensures
        replace_all(p + z, pat, v) == p + replace_all(z, pat, v),
    decreases p.len(),
{
    let s = p + z;
    if p.len() == 0 {
        assert(s =~= z);
    } else {
        assert(!occurs_at(s, pat, 0));
        let p1 = p.skip(1);
        assert(s.skip(1) =~= p1 + z);
        assert forall|i: int| 0 <= i < p1.len() implies !occurs_at(#[trigger] (p1 + z), pat, i) by {
            if occurs_at(p1 + z, pat, i) {
                assert(s.subrange(i + 1, i + 1 + pat.len()) =~= (p1 + z).subrange(i, i + pat.len()));
                assert(occurs_at(s, pat, i + 1));
            }
        }
        lemma_replace_after(p1, z, pat, v);
        assert(s =~= seq![s[0]] + (p1 + z));
        assert(p =~= seq![p[0]] + p1);
    }
}

/// A text without `{` before the rest is left as it is by replacing a
/// placeholder.
proof fn lemma_replace_after_plain(l: Seq<char>, z: Seq<char>, pat: Seq<char>, v: Seq<char>)
    requires
        pat.len() > 0,
        pat[0] == '{',
        !l.contains('{'),
    ensures
        replace_all(l + z, pat, v) == l + replace_all(z, pat, v),
{
    assert forall|i: int| 0 <= i < l.len() implies !occurs_at(#[trigger] (l + z), pat, i) by {
        if occurs_at(l + z, pat, i) {
            assert((l + z).subrange(i, i + pat.len())[0] == (l + z)[i]);
            assert(l[i] == '{');
        }
    }
    lemma_replace_after(l, z, pat, v);
}

/// Replacing a placeholder skips over another placeholder `q` (after plain
/// text `l`) that differs from it at position `j`.
proof fn lemma_replace_skips(
    l: Seq<char>,
    q: Seq<char>,
    z: Seq<char>,
    pat: Seq<char>,
    v: Seq<char>,
    j: int,
)
    requires
        pat.len() > 0,
        pat[0] == '{',
        !l.contains('{'),
        q.len() > 0,
        q[0] == '{',
        forall|k: int| 1 <= k < q.len() ==> q[k] != '{',
        0 < j < q.len(),
        j < pat.len(),
        q[j] != pat[j],
    ensures
        replace_all(l + q + z, pat, v) == l + q + replace_all(z, pat, v),
{
    let p = l + q;
    assert(l + q + z =~= p + z);
    assert forall|i: int| 0 <= i < p.len() implies !occurs_at(#[trigger] (p + z), pat, i) by {
        if occurs_at(p + z, pat, i) {
            let s = p + z;
            assert(s.subrange(i, i + pat.len())[0] == s[i]);
            if i < l.len() {
                assert(l[i] == '{');
            } else if i == l.len() {
                assert(s.subrange(i, i + pat.len())[j] == s[i + j]);
                assert(s[i + j] == q[j]);
            } else {
                assert(s[i] == q[i - l.len()]);
            }
        }
    }
    lemma_replace_after(p, z, pat, v);
}

proof fn lemma_replace_here(pat: Seq<char>, z: Seq<char>, v: Seq<char>)
    requires
        pat.len() > 0,
    ensures
        replace_all(pat + z, pat, v) == v + replace_all(z, pat, v),
{
    let s = pat + z;
    assert(s.subrange(0, pat.len() as int) =~= pat);
    assert(s.skip(pat.len() as int) =~= z);
}

proof fn lemma_no_brace_concat(a: Seq<char>, b: Seq<char>)
    requires
        !a.contains('{'),
        !b.contains('{'),
    ensures
        !(a + b).contains('{'),
{
    if (a + b).contains('{') {
        let i = choose|i: int| 0 <= i < (a + b).len() && (a + b)[i] == '{';
        if i < a.len() {
            assert(a[i] == '{');
        } else {
            assert(b[i - a.len()] == '{');
        }
    }
}

/// The user data of an instance, written out: the user-data template with
/// `{vm}` replaced by the instance's hostname, `{user_name}` by the user's
/// name, `{user_key}` (the key listed under the user's entry) by the user's
/// key and `{admin_key}` (the key listed under the `sysadmin` entry) by the
/// administrator's key. (For values without `{`: a value holding a later
/// placeholder would have it replaced too.)
pub proof fn lemma_user_seed_text(config: &VmConfig, admin_key: Seq<char>)
    requires
        !config.instance.hostname@.contains('{'),
        !config.user.name@.contains('{'),
        !config.user.key@.contains('{'),
        !admin_key.contains('{'),
    ensures
        interpolate(USER_DATA_SEED@, user_bindings(config, admin_key)) == "#cloud-config\nhostname: "@
            + config.instance.hostname@ + "\nusers:\n  - name: "@ + config.user.name@
            + "\n    shell: /bin/bash\n    sudo: ALL=(ALL) NOPASSWD:ALL\n    ssh_authorized_keys:\n      - "@
            + config.user.key@
            + "\n  - name: sysadmin\n    shell: /bin/bash\n    sudo: ALL=(ALL) NOPASSWD:ALL\n    ssh_authorized_keys:\n      - "@
            + admin_key + "\n"@,
{
    let h = config.instance.hostname@;
    let n = config.user.name@;
    let k = config.user.key@;
    let a = admin_key;
    let a0 = "#cloud-config\nhostname: "@;
    let a1 = "\nusers:\n  - name: "@;
    let a2 = "\n    shell: /bin/bash\n    sudo: ALL=(ALL) NOPASSWD:ALL\n    ssh_authorized_keys:\n      - "@;
    let a3 = "\n  - name: sysadmin\n    shell: /bin/bash\n    sudo: ALL=(ALL) NOPASSWD:ALL\n    ssh_authorized_keys:\n      - "@;
    let a4 = "\n"@;
    let p1 = "{vm}"@;
    let p2 = "{user_name}"@;
    let p3 = "{user_key}"@;
    let p4 = "{admin_key}"@;
    reveal_strlit("#cloud-config\nhostname: ");
    reveal_strlit("\nusers:\n  - name: ");
    reveal_strlit("\n    shell: /bin/bash\n    sudo: ALL=(ALL) NOPASSWD:ALL\n    ssh_authorized_keys:\n      - ");
    reveal_strlit("\n  - name: sysadmin\n    shell: /bin/bash\n    sudo: ALL=(ALL) NOPASSWD:ALL\n    ssh_authorized_keys:\n      - ");
    reveal_strlit("\n");
    reveal_strlit("{vm}");
    reveal_strlit("{user_name}");
    reveal_strlit("{user_key}");
    reveal_strlit("{admin_key}");
    reveal_strlit("{");
    reveal_strlit("}");
    reveal_strlit("vm");
    reveal_strlit("user_name");
    reveal_strlit("user_key");
    reveal_strlit("admin_key");
    reveal_strlit("#cloud-config\nhostname: {vm}\nusers:\n  - name: {user_name}\n    shell: /bin/bash\n    sudo: ALL=(ALL) NOPASSWD:ALL\n    ssh_authorized_keys:\n      - {user_key}\n  - name: sysadmin\n    shell: /bin/bash\n    sudo: ALL=(ALL) NOPASSWD:ALL\n    ssh_authorized_keys:\n      - {admin_key}\n");
    assert(USER_DATA_SEED@ =~= a0 + p1 + a1 + p2 + a2 + p3 + a3 + p4 + a4);
    assert(placeholder("vm"@) =~= p1);
    assert(placeholder("user_name"@) =~= p2);
    assert(placeholder("user_key"@) =~= p3);
    assert(placeholder("admin_key"@) =~= p4);
    assert(!a0.contains('{')) by {
        assert forall|i: int| 0 <= i < a0.len() implies a0[i] != '{' by {}
    }
    assert(!a1.contains('{')) by {
        assert forall|i: int| 0 <= i < a1.len() implies a1[i] != '{' by {}
    }
    assert(!a2.contains('{')) by {
        assert forall|i: int| 0 <= i < a2.len() implies a2[i] != '{' by {}
    }
    assert(!a3.contains('{')) by {
        assert forall|i: int| 0 <= i < a3.len() implies a3[i] != '{' by {}
    }
    assert(!a4.contains('{')) by {
        assert forall|i: int| 0 <= i < a4.len() implies a4[i] != '{' by {}
    }
    let bs = user_bindings(config, admin_key);
    assert(bs.drop_last().drop_last().drop_last().drop_last() =~= Seq::<(Seq<char>, Seq<char>)>::empty());
    // {vm}
    let t0 = a0 + p1 + a1 + p2 + a2 + p3 + a3 + p4 + a4;
    lemma_replace_absent(a4, p1, h);
    lemma_replace_skips(a3, p4, a4, p1, h, 1);
    lemma_replace_skips(a2, p3, a3 + p4 + a4, p1, h, 1);
    lemma_replace_skips(a1, p2, a2 + p3 + (a3 + p4 + a4), p1, h, 1);
    assert(a3 + p4 + a4 =~= a3 + p4 + a4);
    lemma_replace_here(p1, a1 + p2 + (a2 + p3 + (a3 + p4 + a4)), h);
    lemma_replace_after_plain(a0, p1 + (a1 + p2 + (a2 + p3 + (a3 + p4 + a4))), p1, h);
    assert(t0 =~= a0 + (p1 + (a1 + p2 + (a2 + p3 + (a3 + p4 + a4)))));
    let t1 = a0 + h + a1 + p2 + a2 + p3 + a3 + p4 + a4;
    assert(replace_all(t0, p1, h) =~= t1);
    // {user_name}
    let l1 = a0 + h + a1;
    lemma_no_brace_concat(a0, h);
    lemma_no_brace_concat(a0 + h, a1);
    lemma_replace_absent(a4, p2, n);
    lemma_replace_skips(a3, p4, a4, p2, n, 1);
    lemma_replace_skips(a2, p3, a3 + p4 + a4, p2, n, 6);
    lemma_replace_here(p2, a2 + p3 + (a3 + p4 + a4), n);
    lemma_replace_after_plain(l1, p2 + (a2 + p3 + (a3 + p4 + a4)), p2, n);
    assert(t1 =~= l1 + (p2 + (a2 + p3 + (a3 + p4 + a4))));
    let t2 = a0 + h + a1 + n + a2 + p3 + a3 + p4 + a4;
    assert(replace_all(t1, p2, n) =~= t2);
    // {user_key}
    let l2 = a0 + h + a1 + n + a2;
    lemma_no_brace_concat(l1, n);
    lemma_no_brace_concat(l1 + n, a2);
    lemma_replace_absent(a4, p3, k);
    lemma_replace_skips(a3, p4, a4, p3, k, 1);
    lemma_replace_here(p3, a3 + p4 + a4, k);
    lemma_replace_after_plain(l2, p3 + (a3 + p4 + a4), p3, k);
    assert(t2 =~= l2 + (p3 + (a3 + p4 + a4)));
    let t3 = a0 + h + a1 + n + a2 + k + a3 + p4 + a4;
    assert(replace_all(t2, p3, k) =~= t3);
    // {admin_key}
    let l3 = a0 + h + a1 + n + a2 + k + a3;
    lemma_no_brace_concat(l2, k);
    lemma_no_brace_concat(l2 + k, a3);
    lemma_replace_absent(a4, p4, a);
    lemma_replace_here(p4, a4, a);
    lemma_replace_after_plain(l3, p4 + a4, p4, a);
    assert(t3 =~= l3 + (p4 + a4));
    let t4 = a0 + h + a1 + n + a2 + k + a3 + a + a4;
    assert(replace_all(t3, p4, a) =~= t4);
    assert(interpolate(USER_DATA_SEED@, bs.drop_last().drop_last().drop_last().drop_last()) == t0);
    assert(interpolate(USER_DATA_SEED@, bs.drop_last().drop_last().drop_last()) == t1);
    assert(interpolate(USER_DATA_SEED@, bs.drop_last().drop_last()) == t2);
    assert(interpolate(USER_DATA_SEED@, bs.drop_last()) == t3);
}

/// The network configuration of an instance, written out: the template with
/// the MAC address matched, `dhcp4` set to `true` or `false` as DHCP is on,
/// the instance's IP as its address and the gateway as the via of its
/// default route. (For a MAC address and IP without `{`.)
pub proof fn lemma_network_seed_text(config: &VmConfig, gateway: Ipv4Address)
    requires
        !config.networking.mac@.contains('{'),
        !config.networking.ip@.contains('{'),
    ensures
        interpolate(NETWORK_CONFIG_SEED@, network_bindings(config, gateway)) == "version: 2\nethernets:\n  primary:\n    match:\n      macaddress: \""@
            + config.networking.mac@ + "\"\n    dhcp4: "@ + (if config.networking.dhcp {
            "true"@
        } else {
            "false"@
        }) + "\n    addresses:\n      - "@ + config.networking.ip@ + "\n    routes:\n      - to: default\n        via: "@ + ipv4_text(gateway) + "\n"@,
{
    let m = config.networking.mac@;
    let d = bool_text(config.networking.dhcp);
    let i = config.networking.ip@;
    let g = ipv4_text(gateway);
    let n0 = "version: 2\nethernets:\n  primary:\n    match:\n      macaddress: \""@;
    let n1 = "\"\n    dhcp4: "@;
    let n2 = "\n    addresses:\n      - "@;
    let n3 = "\n    routes:\n      - to: default\n        via: "@;
    let n4 = "\n"@;
    let pm = "{mac_triple}"@;
    let pd = "{dhcp}"@;
    let pi = "{ip}"@;
    let pg = "{gateway}"@;
    reveal_strlit("version: 2\nethernets:\n  primary:\n    match:\n      macaddress: \"");
    reveal_strlit("\"\n    dhcp4: ");
    reveal_strlit("\n    addresses:\n      - ");
    reveal_strlit("\n    routes:\n      - to: default\n        via: ");
    reveal_strlit("\n");
    reveal_strlit("version: 2\nethernets:\n  primary:\n    match:\n      macaddress: \"{mac_triple}\"\n    dhcp4: {dhcp}\n    addresses:\n      - {ip}\n    routes:\n      - to: default\n        via: {gateway}\n");
    reveal_strlit("{mac_triple}");
    reveal_strlit("{dhcp}");
    reveal_strlit("{ip}");
    reveal_strlit("{gateway}");
    reveal_strlit("{");
    reveal_strlit("}");
    reveal_strlit("mac_triple");
    reveal_strlit("dhcp");
    reveal_strlit("ip");
    reveal_strlit("gateway");
    reveal_strlit("true");
    reveal_strlit("false");
    assert(NETWORK_CONFIG_SEED@ =~= n0 + pm + n1 + pd + n2 + pi + n3 + pg + n4);
    assert(placeholder("mac_triple"@) =~= pm);
    assert(placeholder("dhcp"@) =~= pd);
    assert(placeholder("ip"@) =~= pi);
    assert(placeholder("gateway"@) =~= pg);
    assert(!n0.contains('{')) by {
        assert forall|j: int| 0 <= j < n0.len() implies n0[j] != '{' by {}
    }
    assert(!n1.contains('{')) by {
        assert forall|j: int| 0 <= j < n1.len() implies n1[j] != '{' by {}
    }
    assert(!n2.contains('{')) by {
        assert forall|j: int| 0 <= j < n2.len() implies n2[j] != '{' by {}
    }
    assert(!n3.contains('{')) by {
        assert forall|j: int| 0 <= j < n3.len() implies n3[j] != '{' by {}
    }
    assert(!n4.contains('{')) by {
        assert forall|j: int| 0 <= j < n4.len() implies n4[j] != '{' by {}
    }
    assert(!d.contains('{')) by {
        assert forall|j: int| 0 <= j < d.len() implies d[j] != '{' by {}
    }
    assert(!g.contains('{')) by {
        crate::net::lemma_ipv4_text_chars(gateway);
        assert forall|j: int| 0 <= j < g.len() implies g[j] != '{' by {}
    }
    let bs = network_bindings(config, gateway);
    assert(bs.drop_last().drop_last().drop_last().drop_last() =~= Seq::<(Seq<char>, Seq<char>)>::empty());
    // {dhcp}
    let t0 = n0 + pm + n1 + pd + n2 + pi + n3 + pg + n4;
    let rest = n2 + pi + (n3 + pg + n4);
    lemma_replace_absent(n4, pd, d);
    lemma_replace_skips(n3, pg, n4, pd, d, 1);
    lemma_replace_skips(n2, pi, n3 + pg + n4, pd, d, 1);
    lemma_replace_here(pd, rest, d);
    lemma_replace_after_plain(n1, pd + rest, pd, d);
    lemma_replace_skips(n0, pm, n1 + (pd + rest), pd, d, 1);
    assert(t0 =~= n0 + pm + (n1 + (pd + rest)));
    let t1 = n0 + pm + n1 + d + n2 + pi + n3 + pg + n4;
    assert(replace_all(t0, pd, d) =~= t1);
    // {mac_triple}
    let l1 = n1 + d + n2;
    lemma_no_brace_concat(n1, d);
    lemma_no_brace_concat(n1 + d, n2);
    lemma_replace_absent(n4, pm, m);
    lemma_replace_skips(n3, pg, n4, pm, m, 1);
    lemma_replace_skips(l1, pi, n3 + pg + n4, pm, m, 1);
    lemma_replace_here(pm, l1 + pi + (n3 + pg + n4), m);
    lemma_replace_after_plain(n0, pm + (l1 + pi + (n3 + pg + n4)), pm, m);
    assert(t1 =~= n0 + (pm + (l1 + pi + (n3 + pg + n4))));
    let t2 = n0 + m + n1 + d + n2 + pi + n3 + pg + n4;
    assert(replace_all(t1, pm, m) =~= t2);
    // {ip}
    let l2 = n0 + m + n1 + d + n2;
    lemma_no_brace_concat(n0, m);
    lemma_no_brace_concat(n0 + m, n1);
    lemma_no_brace_concat(n0 + m + n1, d);
    lemma_no_brace_concat(n0 + m + n1 + d, n2);
    lemma_replace_absent(n4, pi, i);
    lemma_replace_skips(n3, pg, n4, pi, i, 1);
    lemma_replace_here(pi, n3 + pg + n4, i);
    lemma_replace_after_plain(l2, pi + (n3 + pg + n4), pi, i);
    assert(t2 =~= l2 + (pi + (n3 + pg + n4)));
    let t3 = n0 + m + n1 + d + n2 + i + n3 + pg + n4;
    assert(replace_all(t2, pi, i) =~= t3);
    // {gateway}
    let l3 = l2 + i + n3;
    lemma_no_brace_concat(l2, i);
    lemma_no_brace_concat(l2 + i, n3);
    lemma_replace_absent(n4, pg, g);
    lemma_replace_here(pg, n4, g);
    lemma_replace_after_plain(l3, pg + n4, pg, g);
    assert(t3 =~= l3 + (pg + n4));
    let t4 = n0 + m + n1 + d + n2 + i + n3 + g + n4;
    assert(replace_all(t3, pg, g) =~= t4);
    assert(interpolate(NETWORK_CONFIG_SEED@, bs.drop_last().drop_last().drop_last().drop_last()) == t0);
    assert(interpolate(NETWORK_CONFIG_SEED@, bs.drop_last().drop_last().drop_last()) == t1);
    assert(interpolate(NETWORK_CONFIG_SEED@, bs.drop_last().drop_last()) == t2);
    assert(interpolate(NETWORK_CONFIG_SEED@, bs.drop_last()) == t3);
}

/// The metadata of an instance, written out: its host name as both its
/// instance ID and its local host name. (For a host name without `{`.)
pub proof fn lemma_metadata_seed_text(hostname: Seq<char>)
    requires
        !hostname.contains('{'),
    ensures
        interpolate(META_DATA_SEED@, seq![("vm"@, hostname)]) == "instance-id: "@ + hostname + "\nlocal-hostname: "@ + hostname
            + "\n"@,
{
    let m0 = "instance-id: "@;
    let m1 = "\nlocal-hostname: "@;
    let m2 = "\n"@;
    let pv = "{vm}"@;
    reveal_strlit("instance-id: ");
    reveal_strlit("\nlocal-hostname: ");
    reveal_strlit("\n");
    reveal_strlit("instance-id: {vm}\nlocal-hostname: {vm}\n");
    reveal_strlit("{vm}");
    reveal_strlit("{");
    reveal_strlit("}");
    reveal_strlit("vm");
    assert(META_DATA_SEED@ =~= m0 + pv + m1 + pv + m2);
    assert(placeholder("vm"@) =~= pv);
    assert(!m0.contains('{')) by {
        assert forall|j: int| 0 <= j < m0.len() implies m0[j] != '{' by {}
    }
    assert(!m1.contains('{')) by {
        assert forall|j: int| 0 <= j < m1.len() implies m1[j] != '{' by {}
    }
    assert(!m2.contains('{')) by {
        assert forall|j: int| 0 <= j < m2.len() implies m2[j] != '{' by {}
    }
    lemma_replace_absent(m2, pv, hostname);
    lemma_replace_here(pv, m2, hostname);
    lemma_replace_after_plain(m1, pv + m2, pv, hostname);
    lemma_replace_here(pv, m1 + (pv + m2), hostname);
    lemma_replace_after_plain(m0, pv + (m1 + (pv + m2)), pv, hostname);
    assert(META_DATA_SEED@ =~= m0 + (pv + (m1 + (pv + m2))));
    let bs = seq![("vm"@, hostname)];
    assert(bs.drop_last() =~= Seq::<(Seq<char>, Seq<char>)>::empty());
    assert(interpolate(META_DATA_SEED@, bs.drop_last()) == META_DATA_SEED@);
    assert(bs.last() == ("vm"@, hostname));
    let t = m0 + (pv + (m1 + (pv + m2)));
    assert(replace_all(t, pv, hostname) =~= m0 + hostname + m1 + hostname + m2);
    assert(interpolate(META_DATA_SEED@, bs) == replace_all(META_DATA_SEED@, pv, hostname));
}

} // verus!
