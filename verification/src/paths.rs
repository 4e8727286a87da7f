//! The storage layout shared by preflight, image creation, and domain XML.
use vstd::prelude::*;

use crate::text::{chars_of, contains_char, str_eq};

verus! {

/// Where libvirt keeps its images unless configured otherwise.
pub const LIBVIRT_IMAGES: &'static str = "/var/lib/libvirt/images";

/// The file name of the shared cloud image that every instance disk is backed by.
pub const ARCH_CLOUD_IMAGE: &'static str = "Arch-Linux-x86_64-cloudimg.qcow2";

/// `base` joined with `part` as `PathBuf::join` does: an absolute `part`
/// replaces `base`, otherwise a `/` separates them unless `base` is empty or
/// already ends with one.
pub open spec fn path_join(base: Seq<char>, part: Seq<char>) -> Seq<char> {
    if part.len() > 0 && part[0] == '/' {
        part
    } else if base.len() == 0 || base.last() == '/' {
        base + part
    } else {
        base + "/"@ + part
    }
}

/// `PathBuf::join` on paths held as text.
pub fn join(base: &str, part: &str) -> (r: String)
    ensures
        r@ == path_join(base@, part@),
{
    proof {
        reveal_strlit("/");
    }
    let b = chars_of(base);
    let p = chars_of(part);
    if p.len() > 0 && p[0] == '/' {
        return String::from_str(part);
    }
    let mut r = String::from_str(base);
    if !(b.len() == 0 || b[b.len() - 1] == '/') {
        r.append("/");
    }
    r.append(part);
    r
}

/// `path` is `directory` followed by `/` and one non-empty file name.
pub open spec fn is_child_of(path: Seq<char>, directory: Seq<char>) -> bool {
    exists|name: Seq<char>|
        #![trigger directory + "/"@ + name]
        name.len() > 0 && !name.contains('/') && path == directory + "/"@ + name
}

/// `hostname` names exactly one file inside a directory: it is not empty, not
/// `.` or `..`, and holds no `/`, `\` or NUL: the names that `Path::components`
/// reads as one normal component and that hold none of those three characters.
pub open spec fn is_single_file_name(hostname: Seq<char>) -> bool {
    &&& hostname.len() > 0
    &&& hostname != "."@
    &&& hostname != ".."@
    &&& !hostname.contains('/')
    &&& !hostname.contains('\\')
    &&& !hostname.contains('\0')
}

/// Whether `hostname` names exactly one file (see `is_single_file_name`).
pub fn single_file_name(hostname: &str) -> (r: bool)
    ensures
        r == is_single_file_name(hostname@),
{
    proof {
        reveal_strlit(".");
        reveal_strlit("..");
    }
    let v = chars_of(hostname);
    v.len() > 0 && !str_eq(hostname, ".") && !str_eq(hostname, "..") && !contains_char(
        hostname,
        '/',
    ) && !contains_char(hostname, '\\') && !contains_char(hostname, '\0')
}

/// Where the server keeps its own data.
pub const DATA_DIRECTORY: &'static str = "/var/lib/andromeda";

/// The database file.
pub const DATABASE_FILE: &'static str = "/var/lib/andromeda/andromeda.db";

/// Where the log of each run is saved.
pub const LOG_DIRECTORY: &'static str = "/var/lib/andromeda/logs";

/// The guest defaults copied into each new disk's `/etc/skel`.
pub const SKELETON_DIRECTORY: &'static str = "/var/lib/andromeda/skel";

/// Where disk exports are prepared, each in a private workspace.
pub const EXPORT_DIRECTORY: &'static str = "/var/lib/andromeda/exports";

/// The storage layout: templates, seed ISOs and instance disks below one root.
#[derive(Clone)]
pub struct StoragePaths {
    root: String,
}

/// The files of one instance, computed once per request so that commands and
/// XML refer to the same files.
pub struct InstancePaths {
    pub cloud_image: String,
    pub disk: String,
    pub seed_iso: String,
}

impl StoragePaths {
    /// The root directory.
    pub closed spec fn root_path(&self) -> Seq<char> {
        self.root@
    }

    pub open spec fn templates_path(&self) -> Seq<char> {
        path_join(self.root_path(), "templates"@)
    }

    pub open spec fn seeds_path(&self) -> Seq<char> {
        path_join(self.root_path(), "seed"@)
    }

    pub open spec fn instances_path(&self) -> Seq<char> {
        path_join(self.root_path(), "instances"@)
    }

    pub open spec fn cloud_image_path(&self) -> Seq<char> {
        path_join(self.templates_path(), ARCH_CLOUD_IMAGE@)
    }

    /// The disk of the instance called `hostname`.
    pub open spec fn disk_path(&self, hostname: Seq<char>) -> Seq<char> {
        path_join(self.instances_path(), hostname + ".qcow2"@)
    }

    /// The seed ISO of the instance called `hostname`.
    pub open spec fn seed_iso_path(&self, hostname: Seq<char>) -> Seq<char> {
        path_join(self.seeds_path(), hostname + ".iso"@)
    }

    /// The layout below `root`.
    pub fn at(root: &str) -> (r: Self)
        ensures
            r.root_path() == root@,
    {
        StoragePaths { root: String::from_str(root) }
    }

    /// The directory of the shared cloud image.
    pub fn templates(&self) -> (r: String)
        ensures
            r@ == self.templates_path(),
    {
        join(self.root.as_str(), "templates")
    }

    /// The directory of the cloud-init seed ISOs.
    pub fn seeds(&self) -> (r: String)
        ensures
            r@ == self.seeds_path(),
    {
        join(self.root.as_str(), "seed")
    }

    /// The directory of the instance disks.
    pub fn instances(&self) -> (r: String)
        ensures
            r@ == self.instances_path(),
    {
        join(self.root.as_str(), "instances")
    }

    /// The shared cloud image.
    pub fn cloud_image(&self) -> (r: String)
        ensures
            r@ == self.cloud_image_path(),
    {
        let templates = self.templates();
        join(templates.as_str(), ARCH_CLOUD_IMAGE)
    }

    /// The files of the instance called `hostname`: its disk `{hostname}.qcow2`
    /// below `instances`, its seed ISO `{hostname}.iso` below `seed`, and the
    /// shared cloud image. A hostname that is not a single file name is refused.
    pub fn instance(&self, hostname: &str) -> (r: Result<InstancePaths, String>)
        ensures
            r is Ok <==> is_single_file_name(hostname@),
            r matches Ok(p) ==> {
                &&& p.cloud_image@ == self.cloud_image_path()
                &&& p.disk@ == self.disk_path(hostname@)
                &&& p.seed_iso@ == self.seed_iso_path(hostname@)
            },
            r matches Err(message) ==> message@
                == "hostname must be a single, non-empty filename component"@,
    {
        if !single_file_name(hostname) {
            return Err(String::from_str("hostname must be a single, non-empty filename component"));
        }
        let mut disk_name = String::from_str(hostname);
        disk_name.append(".qcow2");
        let mut iso_name = String::from_str(hostname);
        iso_name.append(".iso");
        let instances = self.instances();
        let seeds = self.seeds();
        Ok(
            InstancePaths {
                cloud_image: self.cloud_image(),
                disk: join(instances.as_str(), disk_name.as_str()),
                seed_iso: join(seeds.as_str(), iso_name.as_str()),
            },
        )
    }
}

impl Default for StoragePaths {
    /// The layout below `/var/lib/libvirt/images`.
    fn default() -> (r: Self)
        ensures
            r.root_path() == LIBVIRT_IMAGES@,
    {
        StoragePaths::at(LIBVIRT_IMAGES)
    }
}

/// A path `base + "/" + name` whose `base` does not end in `/` and whose
/// `name` holds no `/` is a child of `base`.
proof fn lemma_join_is_child(base: Seq<char>, name: Seq<char>)
    requires
        base.len() > 0,
        base.last() != '/',
        name.len() > 0,
        name[0] != '/',
        !name.contains('/'),
    ensures
        is_child_of(path_join(base, name), base),
{
    assert(path_join(base, name) == base + "/"@ + name);
}

/// The instance files sit directly in their directories: the disk in
/// `instances`, the seed ISO in `seed`, and the cloud image in `templates`.
pub proof fn lemma_instance_files_in_their_directories(paths: StoragePaths, hostname: Seq<char>)
    requires
        is_single_file_name(hostname),
    ensures
        is_child_of(
            path_join(paths.instances_path(), hostname + ".qcow2"@),
            paths.instances_path(),
        ),
        is_child_of(path_join(paths.seeds_path(), hostname + ".iso"@), paths.seeds_path()),
        is_child_of(paths.cloud_image_path(), paths.templates_path()),
{
    reveal_strlit("templates");
    reveal_strlit("seed");
    reveal_strlit("instances");
    reveal_strlit(".qcow2");
    reveal_strlit(".iso");
    reveal_strlit("/");
    reveal_strlit("Arch-Linux-x86_64-cloudimg.qcow2");
    let root = paths.root_path();
    assert forall|dir: Seq<char>| dir.len() > 0 && dir[0] != '/' && dir.last() != '/' implies path_join(root, dir).len()
        > 0 && path_join(root, dir).last() != '/' by {
        if root.len() == 0 || root.last() == '/' {
            assert((root + dir).last() == dir.last());
        } else {
            assert((root + "/"@ + dir).last() == dir.last());
        }
    }
    assert("instances"@[8] == 's');
    assert("seed"@[3] == 'd');
    assert("templates"@[8] == 's');
    let disk = hostname + ".qcow2"@;
    let iso = hostname + ".iso"@;
    let image = ARCH_CLOUD_IMAGE@;
    assert(!disk.contains('/')) by {
        if disk.contains('/') {
            let k = choose|k: int| 0 <= k < disk.len() && disk[k] == '/';
            if k < hostname.len() {
                assert(hostname[k] == '/');
            }
        }
    }
    assert(!iso.contains('/')) by {
        if iso.contains('/') {
            let k = choose|k: int| 0 <= k < iso.len() && iso[k] == '/';
            if k < hostname.len() {
                assert(hostname[k] == '/');
            }
        }
    }
    assert(!image.contains('/')) by {
        if image.contains('/') {
            let k = choose|k: int| 0 <= k < image.len() && image[k] == '/';
        }
    }
    assert(disk[0] == hostname[0]);
    assert(iso[0] == hostname[0]);
    assert(hostname[0] != '/');
    lemma_join_is_child(paths.instances_path(), disk);
    lemma_join_is_child(paths.seeds_path(), iso);
    lemma_join_is_child(paths.templates_path(), image);
}

/// `path_join(base, part)` starts with `base` when `part` is relative.
proof fn lemma_join_keeps_base(base: Seq<char>, part: Seq<char>, k: int)
    requires
        part.len() > 0,
        part[0] != '/',
        0 <= k < base.len(),
    ensures
        path_join(base, part).len() > k,
        path_join(base, part)[k] == base[k],
{
    reveal_strlit("/");
    if base.len() == 0 || base.last() == '/' {
        assert((base + part)[k] == base[k]);
    } else {
        assert((base + "/"@ + part)[k] == base[k]);
    }
}

/// The files that an operation removes or exports, the disk and the seed ISO
/// of an instance, are never the shared cloud image.
pub proof fn lemma_instance_files_spare_the_cloud_image(paths: StoragePaths, hostname: Seq<char>)
    requires
        is_single_file_name(hostname),
    ensures
        paths.disk_path(hostname) != paths.cloud_image_path(),
        paths.seed_iso_path(hostname) != paths.cloud_image_path(),
{
    reveal_strlit("templates");
    reveal_strlit("seed");
    reveal_strlit("instances");
    reveal_strlit(".qcow2");
    reveal_strlit(".iso");
    reveal_strlit("/");
    reveal_strlit("Arch-Linux-x86_64-cloudimg.qcow2");
    let root = paths.root_path();
    let q: int = if root.len() == 0 || root.last() == '/' {
        root.len() as int
    } else {
        root.len() + 1int
    };
    if root.len() == 0 || root.last() == '/' {
        assert((root + "instances"@)[q] == 'i');
        assert((root + "templates"@)[q] == 't');
        assert((root + "seed"@)[q] == 's');
    } else {
        assert((root + "/"@ + "instances"@)[q] == 'i');
        assert((root + "/"@ + "templates"@)[q] == 't');
        assert((root + "/"@ + "seed"@)[q] == 's');
    }
    let disk = hostname + ".qcow2"@;
    let iso = hostname + ".iso"@;
    assert(disk[0] == hostname[0]);
    assert(iso[0] == hostname[0]);
    assert(hostname[0] != '/') by {
        if hostname[0] == '/' {
            assert(hostname.contains('/'));
        }
    }
    lemma_join_keeps_base(paths.instances_path(), disk, q);
    lemma_join_keeps_base(paths.seeds_path(), iso, q);
    lemma_join_keeps_base(paths.templates_path(), ARCH_CLOUD_IMAGE@, q);
}

} // verus!
