//! The external commands that prepare and export instance storage.
use vstd::prelude::*;

use crate::libvirt::is_uuid_v4_text;
use crate::random::new_uuid;
use crate::paths::InstancePaths;
use crate::seed::SeedFiles;
use crate::text::{append_u64_text, nat_text, texts};

verus! {

/// A program and its arguments.
pub struct CommandLine {
    pub program: String,
    pub args: Vec<String>,
}

fn arg(text: &str) -> (r: String)
    ensures
        r@ == text@,
{
    String::from_str(text)
}

/// `qemu-img create -f qcow2 -F qcow2 -b <cloud image> <disk>`: the instance
/// disk as a copy-on-write overlay of the shared cloud image.
pub fn create_disk_command(paths: &InstancePaths) -> (r: CommandLine)
    ensures
        r.program@ == "qemu-img"@,
        texts(r.args@) == seq![
            "create"@,
            "-f"@,
            "qcow2"@,
            "-F"@,
            "qcow2"@,
            "-b"@,
            paths.cloud_image@,
            paths.disk@,
        ],
{
    let mut args: Vec<String> = Vec::new();
    args.push(arg("create"));
    args.push(arg("-f"));
    args.push(arg("qcow2"));
    args.push(arg("-F"));
    args.push(arg("qcow2"));
    args.push(arg("-b"));
    args.push(paths.cloud_image.clone());
    args.push(paths.disk.clone());
    let r = CommandLine { program: arg("qemu-img"), args };
    assert(texts(r.args@) =~= seq![
        "create"@,
        "-f"@,
        "qcow2"@,
        "-F"@,
        "qcow2"@,
        "-b"@,
        paths.cloud_image@,
        paths.disk@,
    ]);
    r
}

/// `qemu-img resize <disk> <size>M`: grows the instance disk to `size_mib` MiB.
pub fn resize_disk_command(paths: &InstancePaths, size_mib: usize) -> (r: CommandLine)
    ensures
        r.program@ == "qemu-img"@,
        texts(r.args@) == seq!["resize"@, paths.disk@, nat_text(size_mib as nat) + "M"@],
{
    let mut size = String::new();
    append_u64_text(&mut size, size_mib as u64);
    size.append("M");
    let mut args: Vec<String> = Vec::new();
    args.push(arg("resize"));
    args.push(paths.disk.clone());
    args.push(size);
    let r = CommandLine { program: arg("qemu-img"), args };
    assert(texts(r.args@) =~= seq!["resize"@, paths.disk@, nat_text(size_mib as nat) + "M"@]);
    r
}

/// `cloud-localds -N <network-config> <seed ISO> <user-data> <meta-data>`:
/// the cloud-init ISO of the instance.
pub fn create_iso_command(paths: &InstancePaths, seeds: &SeedFiles) -> (r: CommandLine)
    ensures
        r.program@ == "cloud-localds"@,
        texts(r.args@) == seq![
            "-N"@,
            crate::paths::path_join(seeds.directory@, "network-config"@),
            paths.seed_iso@,
            crate::paths::path_join(seeds.directory@, "user-data"@),
            crate::paths::path_join(seeds.directory@, "meta-data"@),
        ],
{
    let mut args: Vec<String> = Vec::new();
    args.push(arg("-N"));
    args.push(seeds.network_config());
    args.push(paths.seed_iso.clone());
    args.push(seeds.user_data());
    args.push(seeds.meta_data());
    let r = CommandLine { program: arg("cloud-localds"), args };
    assert(texts(r.args@) =~= seq![
        "-N"@,
        crate::paths::path_join(seeds.directory@, "network-config"@),
        paths.seed_iso@,
        crate::paths::path_join(seeds.directory@, "user-data"@),
        crate::paths::path_join(seeds.directory@, "meta-data"@),
    ]);
    r
}

/// `virt-customize --format qcow2 -a <disk> --copy-in <skeleton>:/etc
/// --run-command "chown -R 0:0 /etc/skel"`: copies the guest skeleton
/// directory, dotfiles included, into the disk's `/etc`.
pub fn copy_skeleton_command(paths: &InstancePaths, skeleton: &str) -> (r: CommandLine)
    ensures
        r.program@ == "virt-customize"@,
        texts(r.args@) == seq![
            "--format"@,
            "qcow2"@,
            "-a"@,
            paths.disk@,
            "--copy-in"@,
            skeleton@ + ":/etc"@,
            "--run-command"@,
            "chown -R 0:0 /etc/skel"@,
        ],
{
    let mut source = String::from_str(skeleton);
    source.append(":/etc");
    let mut args: Vec<String> = Vec::new();
    args.push(arg("--format"));
    args.push(arg("qcow2"));
    args.push(arg("-a"));
    args.push(paths.disk.clone());
    args.push(arg("--copy-in"));
    args.push(source);
    args.push(arg("--run-command"));
    args.push(arg("chown -R 0:0 /etc/skel"));
    let r = CommandLine { program: arg("virt-customize"), args };
    assert(texts(r.args@) =~= seq![
        "--format"@,
        "qcow2"@,
        "-a"@,
        paths.disk@,
        "--copy-in"@,
        skeleton@ + ":/etc"@,
        "--run-command"@,
        "chown -R 0:0 /etc/skel"@,
    ]);
    r
}

/// `qemu-img convert -f qcow2 -O qcow2 <disk> <destination>`: a standalone copy
/// of the instance disk with its backing chain flattened.
pub fn export_disk_command(paths: &InstancePaths, destination: &str) -> (r: CommandLine)
    ensures
        r.program@ == "qemu-img"@,
        texts(r.args@) == seq![
            "convert"@,
            "-f"@,
            "qcow2"@,
            "-O"@,
            "qcow2"@,
            paths.disk@,
            destination@,
        ],
{
    let mut args: Vec<String> = Vec::new();
    args.push(arg("convert"));
    args.push(arg("-f"));
    args.push(arg("qcow2"));
    args.push(arg("-O"));
    args.push(arg("qcow2"));
    args.push(paths.disk.clone());
    args.push(arg(destination));
    let r = CommandLine { program: arg("qemu-img"), args };
    assert(texts(r.args@) =~= seq![
        "convert"@,
        "-f"@,
        "qcow2"@,
        "-O"@,
        "qcow2"@,
        paths.disk@,
        destination@,
    ]);
    r
}

/// What the file system says of one instance file.
pub enum FileState {
    Regular,
    /// A directory, a link or another kind of file.
    Other,
    Missing,
    /// The file could not be inspected.
    Unreadable,
}

/// Only application-owned regular files may be exported or removed: an
/// instance file must be a regular file or absent. The error names the file,
/// not the reason it could not be inspected.
pub fn file_verdict(path: &str, state: FileState) -> (r: Result<(), String>)
    ensures
        match state {
            FileState::Regular | FileState::Missing => r is Ok,
            FileState::Other => r matches Err(e) && e@ == "Refusing non-regular instance file "@
                + path@,
            FileState::Unreadable => r matches Err(e) && e@ == "Inspecting "@ + path@,
        },
{
    match state {
        FileState::Regular | FileState::Missing => Ok(()),
        FileState::Other => {
            let mut message = String::from_str("Refusing non-regular instance file ");
            message.append(path);
            Err(message)
        },
        FileState::Unreadable => {
            let mut message = String::from_str("Inspecting ");
            message.append(path);
            Err(message)
        },
    }
}

/// How one command line is run: whether it is launched, and the log line that
/// announces it.
pub struct CommandRun {
    pub launch: bool,
    pub announcement: String,
}

/// A dry run only announces each command (`Dry run: would run {command}`);
/// otherwise the command is announced (`Running {command}`) and launched.
/// `shown` is the command as the log shows it.
pub fn plan_command_run(dry_run: bool, shown: &str) -> (r: CommandRun)
    ensures
        r.launch == !dry_run,
        r.announcement@ == (if dry_run {
            "Dry run: would run "@
        } else {
            "Running "@
        }) + shown@,
{
    let mut announcement = if dry_run {
        String::from_str("Dry run: would run ")
    } else {
        String::from_str("Running ")
    };
    announcement.append(shown);
    CommandRun { launch: !dry_run, announcement }
}

/// A fresh name `{prefix}{uuid}` for a private workspace directory, or
/// `None` when the random source fails.
fn workspace_name(prefix: &str) -> (r: Option<String>)
    ensures
        r matches Some(n) ==> {
            &&& n@.len() == prefix@.len() + 36
            &&& n@.subrange(0, prefix@.len() as int) == prefix@
            &&& is_uuid_v4_text(n@.subrange(prefix@.len() as int, n@.len() as int))
        },
{
    let id = match new_uuid() {
        Some(id) => id,
        None => {
            return None;
        },
    };
    let mut r = String::from_str(prefix);
    r.append(id.as_str());
    assert(r@.subrange(0, prefix@.len() as int) =~= prefix@);
    assert(r@.subrange(prefix@.len() as int, r@.len() as int) =~= id@);
    Some(r)
}

/// A fresh name `andromeda-seed-{uuid}` for the directory of one request's
/// seed files, or `None` when the random source fails.
pub fn seed_workspace_name() -> (r: Option<String>)
    ensures
        r matches Some(n) ==> {
            &&& n@.len() == 51
            &&& n@.subrange(0, 15) == "andromeda-seed-"@
            &&& is_uuid_v4_text(n@.subrange(15, 51))
        },
{
    proof {
        reveal_strlit("andromeda-seed-");
    }
    workspace_name("andromeda-seed-")
}

/// A fresh name `disk-{uuid}` for the private workspace of one disk export,
/// or `None` when the random source fails.
pub fn export_workspace_name() -> (r: Option<String>)
    ensures
        r matches Some(n) ==> {
            &&& n@.len() == 41
            &&& n@.subrange(0, 5) == "disk-"@
            &&& is_uuid_v4_text(n@.subrange(5, 41))
        },
{
    proof {
        reveal_strlit("disk-");
    }
    workspace_name("disk-")
}

} // verus!
